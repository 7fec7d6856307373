//! Text and raw byte cursors over a byte buffer.
//!
//! The text cursor scans bytes one at a time, tracks a (line, column)
//! position, and offers word / line / literal-matching primitives with
//! no partial consumption on failure. The raw cursor decodes unsigned
//! little-endian words from the same kind of buffer. Both report the
//! remaining byte count and fail with an end-of-input error when
//! exhausted.
use vstd::prelude::*;
use vstd::string::StringSliceAdditionalSpecFns;
use crate::error::{Error, ErrorKind, ParserUnknownCharContent, PARSER_ERROR};
use crate::mesh::{Mesh, VertexShader};
use crate::shader_attribute::u32_to_string;

verus! {

/// The bytes of a buffer read as one character each, the way a byte
/// cursor sees them.
pub open spec fn chars_of(s: Seq<u8>) -> Seq<char> {
    Seq::new(s.len(), |i: int| s[i] as char)
}

pub open spec fn is_ws(b: u8) -> bool {
    b == 32 || b == 9 || b == 10 || b == 12 || b == 13
}

pub open spec fn is_digit(b: u8) -> bool {
    48 <= b <= 57
}

/// First position at or after `i` holding a byte that is not ASCII
/// whitespace, or the buffer's length if none is left.
pub open spec fn find_non_ws(s: Seq<u8>, i: int) -> int
    decreases s.len() - i when 0 <= i <= s.len()
{
    if i >= s.len() {
        s.len() as int
    } else if !is_ws(s[i]) {
        i
    } else {
        find_non_ws(s, i + 1)
    }
}

/// First position at or after `i` holding ASCII whitespace, or the
/// buffer's length if none is left.
pub open spec fn find_ws(s: Seq<u8>, i: int) -> int
    decreases s.len() - i when 0 <= i <= s.len()
{
    if i >= s.len() {
        s.len() as int
    } else if is_ws(s[i]) {
        i
    } else {
        find_ws(s, i + 1)
    }
}

/// First position at or after `i` holding a newline byte, or the
/// buffer's length if none is left.
pub open spec fn find_nl(s: Seq<u8>, i: int) -> int
    decreases s.len() - i when 0 <= i <= s.len()
{
    if i >= s.len() {
        s.len() as int
    } else if s[i] == 10 {
        i
    } else {
        find_nl(s, i + 1)
    }
}

/// How many newline bytes the sequence holds.
pub open spec fn count_nl(s: Seq<u8>) -> int
    decreases s.len()
{
    if s.len() == 0 {
        0
    } else {
        count_nl(s.drop_last()) + if s.last() == 10 { 1int } else { 0int }
    }
}

/// Position right after the last newline at or before `p`; the start of
/// the line that position `p` lies on.
pub open spec fn line_start(s: Seq<u8>, p: int) -> int
    decreases p when 0 <= p <= s.len()
{
    if p <= 0 {
        0
    } else if s[p - 1] == 10 {
        p
    } else {
        line_start(s, p - 1)
    }
}

/// Zero-based line number of position `p`.
pub open spec fn line_of(s: Seq<u8>, p: int) -> int {
    count_nl(s.take(p))
}

/// Zero-based column number of position `p`.
pub open spec fn col_of(s: Seq<u8>, p: int) -> int {
    p - line_start(s, p)
}

pub proof fn lemma_find_non_ws(s: Seq<u8>, i: int)
    requires
        0 <= i <= s.len(),
    ensures
        i <= find_non_ws(s, i) <= s.len(),
        forall|j: int| i <= j < find_non_ws(s, i) ==> is_ws(s[j]),
        find_non_ws(s, i) < s.len() ==> !is_ws(s[find_non_ws(s, i)]),
    decreases s.len() - i,
{
    if i < s.len() && is_ws(s[i]) {
        lemma_find_non_ws(s, i + 1);
    }
}

pub proof fn lemma_find_ws(s: Seq<u8>, i: int)
    requires
        0 <= i <= s.len(),
    ensures
        i <= find_ws(s, i) <= s.len(),
        forall|j: int| i <= j < find_ws(s, i) ==> !is_ws(s[j]),
        find_ws(s, i) < s.len() ==> is_ws(s[find_ws(s, i)]),
    decreases s.len() - i,
{
    if i < s.len() && !is_ws(s[i]) {
        lemma_find_ws(s, i + 1);
    }
}

pub proof fn lemma_find_nl(s: Seq<u8>, i: int)
    requires
        0 <= i <= s.len(),
    ensures
        i <= find_nl(s, i) <= s.len(),
        forall|j: int| i <= j < find_nl(s, i) ==> s[j] != 10,
        find_nl(s, i) < s.len() ==> s[find_nl(s, i)] == 10,
    decreases s.len() - i,
{
    if i < s.len() && s[i] != 10 {
        lemma_find_nl(s, i + 1);
    }
}

pub proof fn lemma_count_nl_bound(s: Seq<u8>)
    ensures
        0 <= count_nl(s) <= s.len(),
    decreases s.len(),
{
    if s.len() > 0 {
        lemma_count_nl_bound(s.drop_last());
    }
}

pub proof fn lemma_line_start_bound(s: Seq<u8>, p: int)
    requires
        0 <= p <= s.len(),
    ensures
        0 <= line_start(s, p) <= p,
    decreases p,
{
    if p > 0 && s[p - 1] != 10 {
        lemma_line_start_bound(s, p - 1);
    }
}

/// Consuming one more byte moves the line count up exactly when that
/// byte is a newline, and the column either resets or steps by one.
pub proof fn lemma_position_step(s: Seq<u8>, p: int)
    requires
        0 <= p < s.len(),
    ensures
        s[p] == 10 ==> line_of(s, p + 1) == line_of(s, p) + 1 && col_of(s, p + 1) == 0,
        s[p] != 10 ==> line_of(s, p + 1) == line_of(s, p) && col_of(s, p + 1) == col_of(s, p) + 1,
{
    assert(s.take(p + 1).drop_last() =~= s.take(p));
    assert(s.take(p + 1).last() == s[p]);
    lemma_count_nl_bound(s.take(p));
}

/// End-of-input, as the errors below carry it.
pub open spec fn eof_error() -> Error {
    Error { kind: ErrorKind::ParserEndOfFile, options: PARSER_ERROR }
}

/// Relies on String::push: appends the given character to the end of
/// the string.
pub assume_specification[ String::push ](s: &mut String, ch: char)
    ensures
        final(s)@ == old(s)@.push(ch),
;

/// A freshly allocated string holding the characters of the byte range
/// `[from, to)` of `data`.
fn bytes_to_string(data: &Vec<u8>, from: usize, to: usize) -> (r: String)
    requires
        from <= to <= data@.len(),
    ensures
        r@ == chars_of(data@.subrange(from as int, to as int)),
{
    let mut result = String::new();
    let mut i: usize = from;
    while i < to
        invariant
            from <= i <= to <= data@.len(),
            result@ == chars_of(data@.subrange(from as int, i as int)),
        decreases to - i,
    {
        result.push(data[i] as char);
        i = i + 1;
        proof {
            assert(chars_of(data@.subrange(from as int, i as int)) =~= chars_of(
                data@.subrange(from as int, i - 1),
            ).push(data@[i - 1] as char));
        }
    }
    proof {
        assert(result@ =~= chars_of(data@.subrange(from as int, to as int)));
    }
    result
}

fn is_ws_byte(b: u8) -> (r: bool)
    ensures
        r == is_ws(b),
{
    b == 32 || b == 9 || b == 10 || b == 12 || b == 13
}

/// A text cursor over a byte buffer: a position plus the (line, column)
/// pair it stands at. The buffer itself never changes under it.
pub struct TextParser {
    pub data: Vec<u8>,
    pub pos: usize,
    pub current_line: usize,
    pub current_column: usize,
}

impl TextParser {
    pub open spec fn bytes(&self) -> Seq<u8> {
        self.data@
    }

    /// The cursor stands inside the buffer and its (line, column) pair
    /// agrees with the prefix it has consumed.
    pub open spec fn wf(&self) -> bool {
        &&& self.pos <= self.bytes().len()
        &&& self.current_line == line_of(self.bytes(), self.pos as int)
        &&& self.current_column == col_of(self.bytes(), self.pos as int)
    }

    pub fn create_from_str(value: &str) -> (r: Self)
        ensures
            r.wf(),
            r.bytes() == value.spec_bytes(),
            r.pos == 0,
    {
        Self {
            data: value.as_bytes_vec(),
            pos: 0,
            current_line: 0,
            current_column: 0,
        }
    }

    pub fn create_from_vec(value: Vec<u8>) -> (r: Self)
        ensures
            r.wf(),
            r.bytes() == value@,
            r.pos == 0,
    {
        Self {
            data: value,
            pos: 0,
            current_line: 0,
            current_column: 0,
        }
    }

    /// Where the cursor stands in the buffer, as a byte offset.
    pub fn get_pos(&self) -> (r: usize)
        ensures
            r == self.pos,
    {
        self.pos
    }

    pub fn get_remaining_bytes(&self) -> (r: usize)
        requires
            self.wf(),
        ensures
            r == self.bytes().len() - self.pos,
    {
        self.data.len() - self.pos
    }

    pub fn next_char(&mut self) -> (r: Result<char, Error>)
        requires
            old(self).wf(),
        ensures
            final(self).wf(),
            final(self).data == old(self).data,
            final(self).bytes() == old(self).bytes(),
            old(self).pos < old(self).bytes().len() ==> {
                &&& r == Ok::<char, Error>(old(self).bytes()[old(self).pos as int] as char)
                &&& final(self).pos == old(self).pos + 1
            },
            old(self).pos == old(self).bytes().len() ==> {
                &&& r == Err::<char, Error>(eof_error())
                &&& *final(self) == *old(self)
            },
    {
        if self.pos < self.data.len() {
            let b = self.data[self.pos];
            proof {
                lemma_position_step(self.bytes(), self.pos as int);
                lemma_count_nl_bound(self.bytes().take(self.pos as int));
                lemma_line_start_bound(self.bytes(), self.pos as int);
            }
            self.pos = self.pos + 1;
            if b == 10 {
                self.current_line = self.current_line + 1;
                self.current_column = 0;
            } else {
                self.current_column = self.current_column + 1;
            }
            Ok(b as char)
        } else {
            Err(Error::parser_end_of_file())
        }
    }

    pub fn peek_char(&self) -> (r: Result<char, Error>)
        requires
            self.wf(),
        ensures
            self.pos < self.bytes().len() ==> r == Ok::<char, Error>(
                self.bytes()[self.pos as int] as char,
            ),
            self.pos == self.bytes().len() ==> r == Err::<char, Error>(eof_error()),
    {
        if self.pos < self.data.len() {
            Ok(self.data[self.pos] as char)
        } else {
            Err(Error::parser_end_of_file())
        }
    }

    /// Scans to the next newline and returns the text before it, with
    /// the newline itself consumed; at the end of the buffer with
    /// nothing read it fails instead.
    pub fn next_line(&mut self) -> (r: Result<String, Error>)
        requires
            old(self).wf(),
        ensures
            final(self).wf(),
            final(self).data == old(self).data,
            final(self).bytes() == old(self).bytes(),
            old(self).pos == old(self).bytes().len() ==> {
                &&& r == Err::<String, Error>(eof_error())
                &&& *final(self) == *old(self)
            },
            old(self).pos < old(self).bytes().len() ==> {
                let j = find_nl(old(self).bytes(), old(self).pos as int);
                &&& r matches Ok(line) && line@ == chars_of(
                    old(self).bytes().subrange(old(self).pos as int, j),
                )
                &&& final(self).pos == if j < old(self).bytes().len() {
                    j + 1
                } else {
                    j
                }
            },
    {
        let ghost j = find_nl(self.bytes(), self.pos as int);
        proof {
            lemma_find_nl(self.bytes(), self.pos as int);
        }
        let start = self.pos;
        while self.pos < self.data.len() && self.data[self.pos] != 10
            invariant
                self.wf(),
                self.data == old(self).data,
                start <= self.pos,
                self.pos <= j == find_nl(self.bytes(), start as int) <= self.bytes().len(),
                forall|k: int| start <= k < j ==> self.bytes()[k] != 10,
                j < self.bytes().len() ==> self.bytes()[j] == 10,
            decreases self.bytes().len() - self.pos,
        {
            let _ = self.next_char();
        }
        let line = bytes_to_string(&self.data, start, self.pos);
        if self.pos < self.data.len() {
            let _ = self.next_char();
            Ok(line)
        } else if start == self.pos {
            Err(Error::parser_end_of_file())
        } else {
            Ok(line)
        }
    }

    /// What `next_line` would return, with the cursor left untouched.
    pub fn peek_line(&self) -> (r: Result<String, Error>)
        requires
            self.wf(),
        ensures
            self.pos == self.bytes().len() ==> r == Err::<String, Error>(eof_error()),
            self.pos < self.bytes().len() ==> (r matches Ok(line) && line@ == chars_of(
                self.bytes().subrange(self.pos as int, find_nl(self.bytes(), self.pos as int)),
            )),
    {
        proof {
            lemma_find_nl(self.bytes(), self.pos as int);
        }
        if self.pos == self.data.len() {
            return Err(Error::parser_end_of_file());
        }
        let mut i: usize = self.pos;
        while i < self.data.len() && self.data[i] != 10
            invariant
                self.pos <= i <= self.bytes().len(),
                i <= find_nl(self.bytes(), self.pos as int),
                forall|k: int| self.pos <= k < find_nl(self.bytes(), self.pos as int)
                    ==> self.bytes()[k] != 10,
                find_nl(self.bytes(), self.pos as int) < self.bytes().len() ==> self.bytes()[find_nl(
                    self.bytes(),
                    self.pos as int,
                )] == 10,
            decreases self.bytes().len() - i,
        {
            i = i + 1;
        }
        Ok(bytes_to_string(&self.data, self.pos, i))
    }

    /// Moves the cursor to the next byte that is not ASCII whitespace.
    pub fn skip_whitespace(&mut self)
        requires
            old(self).wf(),
        ensures
            final(self).wf(),
            final(self).data == old(self).data,
            final(self).bytes() == old(self).bytes(),
            final(self).pos == find_non_ws(old(self).bytes(), old(self).pos as int),
    {
        proof {
            lemma_find_non_ws(self.bytes(), self.pos as int);
        }
        while self.pos < self.data.len() && is_ws_byte(self.data[self.pos])
            invariant
                self.wf(),
                self.data == old(self).data,
                old(self).pos <= self.pos,
                self.pos <= find_non_ws(self.bytes(), old(self).pos as int),
                forall|k: int| old(self).pos <= k < find_non_ws(self.bytes(), old(self).pos as int)
                    ==> is_ws(self.bytes()[k]),
                find_non_ws(self.bytes(), old(self).pos as int) < self.bytes().len() ==> !is_ws(
                    self.bytes()[find_non_ws(self.bytes(), old(self).pos as int)],
                ),
            decreases self.bytes().len() - self.pos,
        {
            let _ = self.next_char();
        }
    }

    /// The same as `skip_whitespace`: no whitespace byte is a backslash,
    /// so the extra guard of the line variant never bites.
    pub fn skip_line_white_space(&mut self)
        requires
            old(self).wf(),
        ensures
            final(self).wf(),
            final(self).data == old(self).data,
            final(self).bytes() == old(self).bytes(),
            final(self).pos == find_non_ws(old(self).bytes(), old(self).pos as int),
    {
        self.skip_whitespace()
    }

    /// Skips leading whitespace, then returns the run of bytes up to
    /// the next whitespace; at the end of the buffer it fails with the
    /// leading whitespace consumed.
    pub fn next_word(&mut self) -> (r: Result<String, Error>)
        requires
            old(self).wf(),
        ensures
            final(self).wf(),
            final(self).data == old(self).data,
            final(self).bytes() == old(self).bytes(),
            ({
                let a = find_non_ws(old(self).bytes(), old(self).pos as int);
                let b = find_ws(old(self).bytes(), a);
                if a == old(self).bytes().len() {
                    r == Err::<String, Error>(eof_error()) && final(self).pos == a
                } else {
                    (r matches Ok(word) && word@ == chars_of(old(self).bytes().subrange(a, b)))
                        && final(self).pos == b
                }
            }),
    {
        self.skip_whitespace();
        let ghost a = self.pos as int;
        let ghost b = find_ws(self.bytes(), a);
        proof {
            lemma_find_ws(self.bytes(), a);
        }
        let start = self.pos;
        if start == self.data.len() {
            return Err(Error::parser_end_of_file());
        }
        while self.pos < self.data.len() && !is_ws_byte(self.data[self.pos])
            invariant
                self.wf(),
                self.data == old(self).data,
                start <= self.pos,
                self.pos <= b == find_ws(self.bytes(), start as int) <= self.bytes().len(),
                forall|k: int| start <= k < b ==> !is_ws(self.bytes()[k]),
                b < self.bytes().len() ==> is_ws(self.bytes()[b]),
            decreases self.bytes().len() - self.pos,
        {
            let _ = self.next_char();
        }
        Ok(bytes_to_string(&self.data, start, self.pos))
    }

    /// What `next_word` would return, with the cursor left untouched.
    pub fn peek_word(&self) -> (r: Result<String, Error>)
        requires
            self.wf(),
        ensures
            ({
                let a = find_non_ws(self.bytes(), self.pos as int);
                let b = find_ws(self.bytes(), a);
                if a == self.bytes().len() {
                    r == Err::<String, Error>(eof_error())
                } else {
                    r matches Ok(word) && word@ == chars_of(self.bytes().subrange(a, b))
                }
            }),
    {
        let ghost a0 = find_non_ws(self.bytes(), self.pos as int);
        proof {
            lemma_find_non_ws(self.bytes(), self.pos as int);
        }
        let mut a: usize = self.pos;
        while a < self.data.len() && is_ws_byte(self.data[a])
            invariant
                self.pos <= a <= self.bytes().len(),
                a <= a0 == find_non_ws(self.bytes(), self.pos as int),
                forall|k: int| self.pos <= k < a0 ==> is_ws(self.bytes()[k]),
                a0 < self.bytes().len() ==> !is_ws(self.bytes()[a0]),
            decreases self.bytes().len() - a,
        {
            a = a + 1;
        }
        if a == self.data.len() {
            return Err(Error::parser_end_of_file());
        }
        let ghost b0 = find_ws(self.bytes(), a as int);
        proof {
            lemma_find_ws(self.bytes(), a as int);
        }
        let mut b: usize = a;
        while b < self.data.len() && !is_ws_byte(self.data[b])
            invariant
                a <= b <= self.bytes().len(),
                b <= b0 == find_ws(self.bytes(), a as int),
                forall|k: int| a <= k < b0 ==> !is_ws(self.bytes()[k]),
                b0 < self.bytes().len() ==> is_ws(self.bytes()[b0]),
            decreases self.bytes().len() - b,
        {
            b = b + 1;
        }
        Ok(bytes_to_string(&self.data, a, b))
    }

    /// Reads the next byte as a character and checks it against the
    /// expected one; on mismatch nothing is consumed.
    pub fn require_char(&mut self, expected_char: char) -> (r: Result<(), Error>)
        requires
            old(self).wf(),
        ensures
            final(self).wf(),
            final(self).data == old(self).data,
            old(self).pos == old(self).bytes().len() ==> {
                &&& r == Err::<(), Error>(eof_error())
                &&& *final(self) == *old(self)
            },
            old(self).pos < old(self).bytes().len() && old(self).bytes()[old(self).pos as int]
                as char == expected_char ==> {
                &&& r == Ok::<(), Error>(())
                &&& final(self).pos == old(self).pos + 1
            },
            old(self).pos < old(self).bytes().len() && old(self).bytes()[old(self).pos as int]
                as char != expected_char ==> {
                &&& *final(self) == *old(self)
                &&& r == Err::<(), Error>(Error {
                    kind: ErrorKind::ParserUnknownChar(ParserUnknownCharContent {
                        expected_char,
                        received_char: old(self).bytes()[old(self).pos as int] as char,
                        line_number: old(self).current_line,
                        column_number: old(self).current_column,
                    }),
                    options: PARSER_ERROR,
                })
            },
    {
        if self.pos == self.data.len() {
            return Err(Error::parser_end_of_file());
        }
        let received_char = self.data[self.pos] as char;
        if received_char == expected_char {
            let _ = self.next_char();
            Ok(())
        } else {
            Err(Error::parser_unknown_char(
                expected_char,
                received_char,
                self.current_line,
                self.current_column,
            ))
        }
    }
}

/// How many leading characters of `t` the buffer matches starting at
/// position `i`, reading one byte per character.
pub open spec fn match_len(s: Seq<u8>, i: int, t: Seq<char>) -> int
    decreases t.len(),
{
    if t.len() == 0 {
        0
    } else if i < 0 || i >= s.len() || s[i] as char != t[0] {
        0
    } else {
        1 + match_len(s, i + 1, t.skip(1))
    }
}

pub proof fn lemma_match_len_props(s: Seq<u8>, i: int, t: Seq<char>)
    requires
        0 <= i <= s.len(),
    ensures
        0 <= match_len(s, i, t) <= t.len(),
        i + match_len(s, i, t) <= s.len(),
        forall|j: int| 0 <= j < match_len(s, i, t) ==> s[i + j] as char == t[j],
        match_len(s, i, t) < t.len() ==> (i + match_len(s, i, t) == s.len() || s[i + match_len(
            s,
            i,
            t,
        )] as char != t[match_len(s, i, t)]),
    decreases t.len(),
{
    if t.len() > 0 && i < s.len() && s[i] as char == t[0] {
        lemma_match_len_props(s, i + 1, t.skip(1));
        assert forall|j: int| 0 <= j < match_len(s, i, t) implies s[i + j] as char == t[j] by {
            if j > 0 {
                assert(s[i + 1 + (j - 1)] as char == t.skip(1)[j - 1]);
            }
        }
    }
}

impl TextParser {
    /// Matches the expected text, read one byte per character, against
    /// the buffer; on success all of it is consumed, on mismatch
    /// nothing is, and the error carries the matching prefix that was
    /// found. Expected text is ASCII, as one byte stands for one
    /// character.
    pub fn require_str(&mut self, expected_str: &str) -> (r: Result<(), Error>)
        requires
            old(self).wf(),
            expected_str.is_ascii(),
        ensures
            final(self).wf(),
            final(self).data == old(self).data,
            ({
                let s = old(self).bytes();
                let i = old(self).pos as int;
                let t = expected_str@;
                let k = match_len(s, i, t);
                if k == t.len() {
                    r == Ok::<(), Error>(()) && final(self).pos == i + t.len()
                } else {
                    &&& *final(self) == *old(self)
                    &&& r matches Err(e) && e.options == PARSER_ERROR && (
                    e.kind matches ErrorKind::ParserUnknownStr(c) && c.expected@ == t
                        && c.received@ == chars_of(s.subrange(i, i + k)) && c.line_number == old(
                        self,
                    ).current_line && c.column_number == old(self).current_column)
                }
            }),
    {
        broadcast use vstd::string::group_string_axioms;

        let ghost s = self.bytes();
        let ghost i = self.pos as int;
        let ghost t = expected_str@;
        proof {
            lemma_match_len_props(s, i, t);
        }
        let exp = expected_str.as_bytes();
        let m = exp.len();
        let mut k: usize = 0;
        while k < m && k < self.data.len() - self.pos && self.data[self.pos + k] == exp[k]
            invariant
                self.wf(),
                *self == *old(self),
                s == self.bytes(),
                i == self.pos as int,
                t == expected_str@,
                expected_str.is_ascii(),
                exp@ == expected_str.spec_bytes(),
                m == t.len(),
                0 <= k <= m,
                forall|j: int| 0 <= j < k ==> i + j < s.len() && s[i + j] as char == t[j],
            decreases m - k,
        {
            proof {
                assert(s[i + k] == exp@[k as int]);
                assert(t[k as int] as u8 == exp@[k as int]);
            }
            k = k + 1;
        }
        proof {
            if k < m {
                if i + k < s.len() {
                    assert(s[i + k] != exp@[k as int]);
                    assert(t[k as int] as u8 == exp@[k as int]);
                    assert((t[k as int] as u8) as char == t[k as int]);
                }
            }
            assert(match_len(s, i, t) == k) by {
                let kk = match_len(s, i, t);
                if kk < k {
                    assert(s[i + kk] as char == t[kk]);
                } else if kk > k {
                    assert(s[i + k] as char == t[k as int]);
                    assert(t[k as int] as u8 == exp@[k as int]);
                }
            }
        }
        if k == m {
            let mut c: usize = 0;
            while c < m
                invariant
                    self.wf(),
                    self.data == old(self).data,
                    0 <= c <= m,
                    self.pos == i + c,
                    i + m <= s.len(),
                    s == self.bytes(),
                decreases m - c,
            {
                let _ = self.next_char();
                c = c + 1;
            }
            Ok(())
        } else {
            let received = bytes_to_string(&self.data, self.pos, self.pos + k);
            Err(Error::parser_unknown_str(
                expected_str,
                received.as_str(),
                self.current_line,
                self.current_column,
            ))
        }
    }

    /// Reads the next whitespace-delimited word and checks it against
    /// the expected one; on mismatch or end of input nothing is
    /// consumed.
    pub fn require_word(&mut self, word: &str) -> (r: Result<(), Error>)
        requires
            old(self).wf(),
        ensures
            final(self).wf(),
            final(self).data == old(self).data,
            ({
                let s = old(self).bytes();
                let a = find_non_ws(s, old(self).pos as int);
                let b = find_ws(s, a);
                if a == s.len() {
                    r == Err::<(), Error>(eof_error()) && *final(self) == *old(self)
                } else if chars_of(s.subrange(a, b)) == word@ {
                    r == Ok::<(), Error>(()) && final(self).pos == b
                } else {
                    &&& *final(self) == *old(self)
                    &&& r matches Err(e) && e.options == PARSER_ERROR && (
                    e.kind matches ErrorKind::ParserUnknownWord(c) && c.expected_word@ == word@
                        && c.received_word@ == chars_of(s.subrange(a, b)) && c.line_number == old(
                        self,
                    ).current_line && c.column_number == old(self).current_column)
                }
            }),
    {
        let received_word = match self.peek_word() {
            Ok(received_word) => received_word,
            Err(e) => {
                return Err(e);
            },
        };
        let expected = word.to_owned();
        if received_word == expected {
            let _ = self.next_word();
            Ok(())
        } else {
            Err(Error::parser_unknown_word(
                expected,
                received_word,
                self.current_line,
                self.current_column,
            ))
        }
    }
}

/// All the given words, in order, appear next in the buffer, each one
/// whitespace-delimited.
pub open spec fn req_words_match(s: Seq<u8>, i: int, ws: Seq<Seq<char>>) -> bool
    decreases ws.len(),
{
    if ws.len() == 0 {
        true
    } else {
        let a = find_non_ws(s, i);
        let b = find_ws(s, a);
        a < s.len() && chars_of(s.subrange(a, b)) == ws[0] && req_words_match(s, b, ws.skip(1))
    }
}

/// The position right after the last of the given words, when they all
/// match.
pub open spec fn req_words_end(s: Seq<u8>, i: int, ws: Seq<Seq<char>>) -> int
    decreases ws.len(),
{
    if ws.len() == 0 {
        i
    } else {
        let a = find_non_ws(s, i);
        let b = find_ws(s, a);
        req_words_end(s, b, ws.skip(1))
    }
}

/// The position from which the first failing word was read.
pub open spec fn req_words_fail_pos(s: Seq<u8>, i: int, ws: Seq<Seq<char>>) -> int
    decreases ws.len(),
{
    if ws.len() == 0 {
        i
    } else {
        let a = find_non_ws(s, i);
        let b = find_ws(s, a);
        if a == s.len() || chars_of(s.subrange(a, b)) != ws[0] {
            i
        } else {
            req_words_fail_pos(s, b, ws.skip(1))
        }
    }
}

/// The first of the given words that does not match.
pub open spec fn req_words_fail_expected(s: Seq<u8>, i: int, ws: Seq<Seq<char>>) -> Seq<char>
    decreases ws.len(),
{
    if ws.len() == 0 {
        Seq::empty()
    } else {
        let a = find_non_ws(s, i);
        let b = find_ws(s, a);
        if a == s.len() || chars_of(s.subrange(a, b)) != ws[0] {
            ws[0]
        } else {
            req_words_fail_expected(s, b, ws.skip(1))
        }
    }
}

impl TextParser {
    /// Reads one whitespace-delimited word per expected word and checks
    /// each in order. All of them are consumed on success; on any
    /// failure the cursor is exactly where it started.
    #[verifier::loop_isolation(false)]
    pub fn require_words(&mut self, words: Vec<&str>) -> (r: Result<(), Error>)
        requires
            old(self).wf(),
        ensures
            final(self).wf(),
            final(self).data == old(self).data,
            ({
                let s = old(self).bytes();
                let i = old(self).pos as int;
                let ws = words.deep_view();
                if req_words_match(s, i, ws) {
                    r == Ok::<(), Error>(()) && final(self).pos == req_words_end(s, i, ws)
                } else {
                    &&& *final(self) == *old(self)
                    &&& ({
                        let fp = req_words_fail_pos(s, i, ws);
                        let a = find_non_ws(s, fp);
                        let b = find_ws(s, a);
                        if a == s.len() {
                            r == Err::<(), Error>(eof_error())
                        } else {
                            r matches Err(e) && e.options == PARSER_ERROR && (
                            e.kind matches ErrorKind::ParserUnknownWord(c) && c.expected_word@
                                == req_words_fail_expected(s, i, ws) && c.received_word@ == chars_of(
                                s.subrange(a, b),
                            ) && c.line_number == line_of(s, fp) && c.column_number == col_of(s, fp))
                        }
                    })
                }
            }),
    {
        let ghost s = self.bytes();
        let ghost ws = words.deep_view();
        let saved_pos = self.pos;
        let saved_line = self.current_line;
        let saved_col = self.current_column;
        let mut idx: usize = 0;
        proof {
            assert(ws.skip(0) =~= ws);
        }
        while idx < words.len()
            invariant
                self.wf(),
                self.data == old(self).data,
                s == self.bytes(),
                ws == words.deep_view(),
                ws.len() == words.len(),
                0 <= idx <= words.len(),
                saved_pos == old(self).pos,
                saved_line == old(self).current_line,
                saved_col == old(self).current_column,
                req_words_match(s, old(self).pos as int, ws) == req_words_match(
                    s,
                    self.pos as int,
                    ws.skip(idx as int),
                ),
                req_words_match(s, self.pos as int, ws.skip(idx as int)) ==> req_words_end(
                    s,
                    old(self).pos as int,
                    ws,
                ) == req_words_end(s, self.pos as int, ws.skip(idx as int)),
                !req_words_match(s, self.pos as int, ws.skip(idx as int)) ==> {
                    &&& req_words_fail_pos(s, old(self).pos as int, ws) == req_words_fail_pos(
                        s,
                        self.pos as int,
                        ws.skip(idx as int),
                    )
                    &&& req_words_fail_expected(s, old(self).pos as int, ws)
                        == req_words_fail_expected(s, self.pos as int, ws.skip(idx as int))
                },
            decreases words.len() - idx,
        {
            let ghost pre = *self;
            let ghost sufs = ws.skip(idx as int);
            let word_result = self.require_word(words[idx]);
            proof {
                assert(sufs[0] == ws[idx as int]);
                assert(ws[idx as int] == words@[idx as int]@);
                assert(sufs.skip(1) =~= ws.skip(idx as int + 1));
                lemma_find_non_ws(s, pre.pos as int);
                let a = find_non_ws(s, pre.pos as int);
                lemma_find_ws(s, a);
                let b = find_ws(s, a);
                assert(req_words_match(s, pre.pos as int, sufs) == (a < s.len() && chars_of(
                    s.subrange(a, b),
                ) == sufs[0] && req_words_match(s, b, sufs.skip(1))));
            }
            match word_result {
                Ok(()) => {
                    idx = idx + 1;
                },
                Err(e) => {
                    proof {
                        let a = find_non_ws(s, pre.pos as int);
                        let b = find_ws(s, a);
                        assert(a == s.len() || chars_of(s.subrange(a, b)) != sufs[0]);
                        assert(!req_words_match(s, pre.pos as int, sufs));
                        assert(req_words_fail_pos(s, pre.pos as int, sufs) == pre.pos as int);
                        assert(req_words_fail_expected(s, pre.pos as int, sufs) == sufs[0]);
                    }
                    self.pos = saved_pos;
                    self.current_line = saved_line;
                    self.current_column = saved_col;
                    return Err(e);
                },
            }
        }
        proof {
            assert(ws.skip(words.len() as int) =~= Seq::<Seq<char>>::empty());
        }
        Ok(())
    }

    /// Reads the next line and checks it against the expected one; on
    /// mismatch or end of input nothing is consumed.
    pub fn require_line(&mut self, line: &str) -> (r: Result<(), Error>)
        requires
            old(self).wf(),
        ensures
            final(self).wf(),
            final(self).data == old(self).data,
            ({
                let s = old(self).bytes();
                let i = old(self).pos as int;
                let j = find_nl(s, i);
                if i == s.len() {
                    r == Err::<(), Error>(eof_error()) && *final(self) == *old(self)
                } else if chars_of(s.subrange(i, j)) == line@ {
                    r == Ok::<(), Error>(()) && final(self).pos == if j < s.len() {
                        j + 1
                    } else {
                        j
                    }
                } else {
                    &&& *final(self) == *old(self)
                    &&& r matches Err(e) && e.options == PARSER_ERROR && (
                    e.kind matches ErrorKind::ParserUnknownLine(c) && c.expected_line@ == line@
                        && c.received_line@ == chars_of(s.subrange(i, j)) && c.line_number == old(
                        self,
                    ).current_line)
                }
            }),
    {
        let received_line = match self.peek_line() {
            Ok(received_line) => received_line,
            Err(e) => {
                return Err(e);
            },
        };
        let expected = line.to_owned();
        if received_line == expected {
            let _ = self.next_line();
            Ok(())
        } else {
            Err(Error::parser_unknown_line(expected, received_line, self.current_line))
        }
    }

    /// Consumes a comment line only when the marker matches at the
    /// cursor: the marker, the rest of the line and the newline go;
    /// otherwise nothing moves.
    pub fn skip_single_line_comment(&mut self, comment_syntax: &str)
        requires
            old(self).wf(),
            comment_syntax.is_ascii(),
        ensures
            final(self).wf(),
            final(self).data == old(self).data,
            ({
                let s = old(self).bytes();
                let i = old(self).pos as int;
                let t = comment_syntax@;
                if match_len(s, i, t) == t.len() {
                    ({
                        let j = find_nl(s, i + t.len());
                        final(self).pos == if j < s.len() {
                            j + 1
                        } else {
                            j
                        }
                    })
                } else {
                    *final(self) == *old(self)
                }
            }),
    {
        if self.require_str(comment_syntax).is_err() {
            return ;
        }
        let ghost s = self.bytes();
        let ghost j = find_nl(s, self.pos as int);
        proof {
            lemma_find_nl(s, self.pos as int);
        }
        let start = self.pos;
        while self.pos < self.data.len() && self.data[self.pos] != 10
            invariant
                self.wf(),
                self.data == old(self).data,
                s == self.bytes(),
                start <= self.pos,
                self.pos <= j == find_nl(s, start as int) <= s.len(),
                forall|k: int| start <= k < j ==> s[k] != 10,
                j < s.len() ==> s[j] == 10,
            decreases s.len() - self.pos,
        {
            let _ = self.next_char();
        }
        if self.pos < self.data.len() {
            let _ = self.next_char();
        }
    }
}

/// The whitespace-delimited words between position `i` and the next
/// newline (or the end of the buffer).
pub open spec fn words_of_line(s: Seq<u8>, i: int) -> Seq<Seq<char>>
    decreases s.len() - i when 0 <= i <= s.len() via words_of_line_dec
{
    if i >= s.len() {
        Seq::empty()
    } else if s[i] == 10 {
        Seq::empty()
    } else if is_ws(s[i]) {
        words_of_line(s, i + 1)
    } else {
        seq![chars_of(s.subrange(i, find_ws(s, i)))] + words_of_line(s, find_ws(s, i))
    }
}

#[via_fn]
proof fn words_of_line_dec(s: Seq<u8>, i: int) {
    if 0 <= i < s.len() && s[i] != 10 && !is_ws(s[i]) {
        lemma_find_ws(s, i);
    }
}

/// Where the cursor stands after reading the words of the line:
/// past the newline, or at the end of the buffer.
pub open spec fn words_end(s: Seq<u8>, i: int) -> int
    decreases s.len() - i when 0 <= i <= s.len() via words_end_dec
{
    if i >= s.len() {
        s.len() as int
    } else if s[i] == 10 {
        i + 1
    } else if is_ws(s[i]) {
        words_end(s, i + 1)
    } else {
        words_end(s, find_ws(s, i))
    }
}

#[via_fn]
proof fn words_end_dec(s: Seq<u8>, i: int) {
    if 0 <= i < s.len() && s[i] != 10 && !is_ws(s[i]) {
        lemma_find_ws(s, i);
    }
}

/// Every byte is an ASCII decimal digit.
pub open spec fn all_digits(s: Seq<u8>) -> bool {
    forall|j: int| 0 <= j < s.len() ==> is_digit(s[j])
}

/// The value of an ASCII decimal digit run, accumulated digit by digit
/// in unsigned 32-bit arithmetic that wraps around.
pub open spec fn dec_val(s: Seq<u8>) -> int
    decreases s.len(),
{
    if s.len() == 0 {
        0
    } else {
        (dec_val(s.drop_last()) * 10 + (s.last() - 48)) % 0x1_0000_0000
    }
}

pub proof fn lemma_dec_val_bound(s: Seq<u8>)
    requires
        all_digits(s),
    ensures
        0 <= dec_val(s) < 0x1_0000_0000,
    decreases s.len(),
{
    if s.len() > 0 {
        assert(all_digits(s.drop_last()));
        lemma_dec_val_bound(s.drop_last());
    }
}

proof fn lemma_find_ws_extend(s: Seq<u8>, i: int, j: int)
    requires
        0 <= i <= j <= s.len(),
        forall|k: int| i <= k < j ==> !is_ws(s[k]),
    ensures
        find_ws(s, i) == find_ws(s, j),
    decreases j - i,
{
    if i < j {
        lemma_find_ws_extend(s, i + 1, j);
    }
}

fn is_digit_byte(b: u8) -> (r: bool)
    ensures
        r == is_digit(b),
{
    48 <= b && b <= 57
}

impl TextParser {
    /// Returns every word up to the next line break, consuming the
    /// break itself; words never span lines.
    #[verifier::loop_isolation(false)]
    pub fn next_words(&mut self) -> (r: Vec<String>)
        requires
            old(self).wf(),
        ensures
            final(self).wf(),
            final(self).data == old(self).data,
            r.deep_view() == words_of_line(old(self).bytes(), old(self).pos as int),
            final(self).pos == words_end(old(self).bytes(), old(self).pos as int),
    {
        let ghost s = self.bytes();
        let mut result: Vec<String> = Vec::new();
        proof {
            assert(result.deep_view() + words_of_line(s, self.pos as int) =~= words_of_line(
                s,
                self.pos as int,
            ));
        }
        loop
            invariant
                self.wf(),
                self.data == old(self).data,
                old(self).pos <= self.pos,
                words_of_line(s, old(self).pos as int) == result.deep_view() + words_of_line(
                    s,
                    self.pos as int,
                ),
                words_end(s, old(self).pos as int) == words_end(s, self.pos as int),
            decreases s.len() - self.pos,
        {
            let ghost iter_start = self.pos as int;
            while self.pos < self.data.len() && is_ws_byte(self.data[self.pos]) && self.data[self.pos]
                != 10
                invariant
                    self.wf(),
                    self.data == old(self).data,
                    old(self).pos <= self.pos,
                    iter_start <= self.pos,
                    words_of_line(s, old(self).pos as int) == result.deep_view() + words_of_line(
                        s,
                        self.pos as int,
                    ),
                    words_end(s, old(self).pos as int) == words_end(s, self.pos as int),
                decreases s.len() - self.pos,
            {
                let _ = self.next_char();
            }
            if self.pos == self.data.len() {
                proof {
                    assert(result.deep_view() + words_of_line(s, self.pos as int)
                        =~= result.deep_view());
                }
                return result;
            }
            if self.data[self.pos] == 10 {
                let _ = self.next_char();
                proof {
                    assert(result.deep_view() + words_of_line(s, self.pos - 1)
                        =~= result.deep_view());
                }
                return result;
            }
            let ghost word_start = self.pos as int;
            proof {
                lemma_find_ws(s, word_start);
            }
            let start = self.pos;
            while self.pos < self.data.len() && !is_ws_byte(self.data[self.pos])
                invariant
                    self.wf(),
                    self.data == old(self).data,
                    start <= self.pos,
                    self.pos <= find_ws(s, word_start) <= s.len(),
                    word_start == start as int,
                    forall|k: int| word_start <= k < find_ws(s, word_start) ==> !is_ws(s[k]),
                    find_ws(s, word_start) < s.len() ==> is_ws(s[find_ws(s, word_start)]),
                decreases s.len() - self.pos,
            {
                let _ = self.next_char();
            }
            let word = bytes_to_string(&self.data, start, self.pos);
            let ghost before = result.deep_view();
            result.push(word);
            proof {
                assert(result.deep_view() =~= before.push(
                    chars_of(s.subrange(word_start, find_ws(s, word_start))),
                ));
                assert(words_of_line(s, word_start) == seq![
                    chars_of(s.subrange(word_start, find_ws(s, word_start))),
                ] + words_of_line(s, find_ws(s, word_start)));
                assert(before + words_of_line(s, word_start) =~= result.deep_view()
                    + words_of_line(s, self.pos as int));
                assert(self.pos as int == find_ws(s, word_start));
                assert(find_ws(s, word_start) > word_start);
                assert(iter_start < self.pos as int);
            }
        }
    }

    /// Skips whitespace, then reads a run of decimal digits ending at
    /// whitespace or the end of the buffer, accumulating the value in
    /// wrapping 32-bit arithmetic. A token holding any other byte is
    /// consumed whole and reported as an invalid integer carrying the
    /// whole token, with the cursor resynchronized past it.
    #[verifier::loop_isolation(false)]
    pub fn next_ascii_uint32(&mut self) -> (r: Result<u32, Error>)
        requires
            old(self).wf(),
        ensures
            final(self).wf(),
            final(self).data == old(self).data,
            ({
                let s = old(self).bytes();
                let i = old(self).pos as int;
                let a = find_non_ws(s, i);
                let e = find_ws(s, a);
                let fp = if e < s.len() {
                    e + 1
                } else {
                    e
                };
                if a == s.len() {
                    r == Err::<u32, Error>(eof_error()) && final(self).pos == a
                } else if all_digits(s.subrange(a, e)) {
                    r == Ok::<u32, Error>(dec_val(s.subrange(a, e)) as u32) && final(self).pos == fp
                } else {
                    &&& final(self).pos == fp
                    &&& r matches Err(err) && err.options == PARSER_ERROR && (
                    err.kind matches ErrorKind::ParserInvalidAsciiInt(c) && c.received_word@
                        == chars_of(s.subrange(a, e)) && c.line_number == line_of(s, fp)
                        && c.column_number == col_of(s, fp))
                }
            }),
    {
        let ghost s = self.bytes();
        self.skip_whitespace();
        let ghost a = self.pos as int;
        let ghost e = find_ws(s, a);
        proof {
            lemma_find_non_ws(s, old(self).pos as int);
            lemma_find_ws(s, a);
        }
        if self.pos == self.data.len() {
            return Err(Error::parser_end_of_file());
        }
        let start = self.pos;
        let mut result: u32 = 0;
        proof {
            assert(s.subrange(a, a) =~= Seq::<u8>::empty());
        }
        while self.pos < self.data.len() && is_digit_byte(self.data[self.pos])
            invariant
                self.wf(),
                self.data == old(self).data,
                start as int == a,
                a <= self.pos,
                self.pos as int <= e,
                forall|k: int| a <= k < self.pos ==> is_digit(s[k]),
                result == dec_val(s.subrange(a, self.pos as int)),
            decreases s.len() - self.pos,
        {
            let b = self.data[self.pos];
            let _ = self.next_char();
            let wide: u64 = (result as u64) * 10 + ((b - 48) as u64);
            result = (wide % 0x1_0000_0000) as u32;
            proof {
                let p = self.pos as int;
                assert(s.subrange(a, p).drop_last() =~= s.subrange(a, p - 1));
                assert(s.subrange(a, p).last() == s[p - 1]);
            }
        }
        if self.pos == self.data.len() {
            proof {
                lemma_find_ws_extend(s, a, self.pos as int);
            }
            return Ok(result);
        }
        let b = self.data[self.pos];
        if is_ws_byte(b) {
            proof {
                lemma_find_ws_extend(s, a, self.pos as int);
            }
            let _ = self.next_char();
            return Ok(result);
        }
        proof {
            assert((self.pos as int) < e);
            assert(!is_digit(s[self.pos as int]));
            assert(s.subrange(a, e)[(self.pos as int) - a] == s[self.pos as int]);
            assert(!all_digits(s.subrange(a, e)));
        }
        while self.pos < self.data.len() && !is_ws_byte(self.data[self.pos])
            invariant
                self.wf(),
                self.data == old(self).data,
                a <= self.pos,
                self.pos as int <= e,
                forall|k: int| a <= k < self.pos ==> !is_ws(s[k]),
            decreases s.len() - self.pos,
        {
            let _ = self.next_char();
        }
        let token_end = self.pos;
        if self.pos < self.data.len() {
            let _ = self.next_char();
        }
        let received = bytes_to_string(&self.data, start, token_end);
        Err(Error::parser_invalid_ascii_int(received, self.current_line, self.current_column))
    }
}

/// A raw cursor over a byte buffer: little-endian unsigned decoding
/// with no alignment requirement.
pub struct RawParser {
    pub data: Vec<u8>,
    pub pos: usize,
}

/// The unsigned 32-bit value that four little-endian bytes at position
/// `p` hold.
pub open spec fn le32_at(s: Seq<u8>, p: int) -> int {
    s[p] + 0x100 * s[p + 1] + 0x1_0000 * s[p + 2] + 0x100_0000 * s[p + 3]
}

impl RawParser {
    pub open spec fn bytes(&self) -> Seq<u8> {
        self.data@
    }

    pub open spec fn wf(&self) -> bool {
        self.pos <= self.bytes().len()
    }

    pub fn new(data: Vec<u8>, pos: usize) -> (r: Self)
        requires
            pos <= data@.len(),
        ensures
            r.wf(),
            r.bytes() == data@,
            r.pos == pos,
    {
        Self { data, pos }
    }

    pub fn create_from_vec(value: Vec<u8>) -> (r: Self)
        ensures
            r.wf(),
            r.bytes() == value@,
            r.pos == 0,
    {
        Self { data: value, pos: 0 }
    }

    /// A raw cursor positioned exactly where the given text cursor
    /// stopped, over the same bytes.
    pub fn from(parser: &TextParser) -> (r: Self)
        requires
            parser.wf(),
        ensures
            r.wf(),
            r.bytes() == parser.bytes(),
            r.pos == parser.pos,
    {
        let data = parser.data.clone();
        proof {
            assert(data@ =~= parser.data@);
        }
        Self { data, pos: parser.pos }
    }

    /// Where the cursor stands in the buffer, as a byte offset.
    pub fn get_pos(&self) -> (r: usize)
        ensures
            r == self.pos,
    {
        self.pos
    }

    pub fn get_remaining_bytes(&self) -> (r: usize)
        requires
            self.wf(),
        ensures
            r == self.bytes().len() - self.pos,
    {
        self.data.len() - self.pos
    }

    pub fn next_raw_u8(&mut self) -> (r: Result<u8, Error>)
        requires
            old(self).wf(),
        ensures
            final(self).wf(),
            final(self).data == old(self).data,
            old(self).pos < old(self).bytes().len() ==> {
                &&& r == Ok::<u8, Error>(old(self).bytes()[old(self).pos as int])
                &&& final(self).pos == old(self).pos + 1
            },
            old(self).pos == old(self).bytes().len() ==> {
                &&& r == Err::<u8, Error>(eof_error())
                &&& *final(self) == *old(self)
            },
    {
        if self.pos < self.data.len() {
            let b = self.data[self.pos];
            self.pos = self.pos + 1;
            Ok(b)
        } else {
            Err(Error::parser_end_of_file())
        }
    }

    /// Reads the next four bytes as one little-endian unsigned 32-bit
    /// value; with fewer than four bytes left it fails, consuming what
    /// remains.
    pub fn next_raw_u32(&mut self) -> (r: Result<u32, Error>)
        requires
            old(self).wf(),
        ensures
            final(self).wf(),
            final(self).data == old(self).data,
            old(self).pos + 4 <= old(self).bytes().len() ==> {
                &&& r == Ok::<u32, Error>(le32_at(old(self).bytes(), old(self).pos as int) as u32)
                &&& final(self).pos == old(self).pos + 4
            },
            old(self).pos + 4 > old(self).bytes().len() ==> {
                &&& r == Err::<u32, Error>(eof_error())
                &&& final(self).pos == old(self).bytes().len()
            },
    {
        if self.data.len() - self.pos >= 4 {
            let b0 = self.data[self.pos] as u32;
            let b1 = self.data[self.pos + 1] as u32;
            let b2 = self.data[self.pos + 2] as u32;
            let b3 = self.data[self.pos + 3] as u32;
            self.pos = self.pos + 4;
            Ok(b0 + 0x100 * b1 + 0x1_0000 * b2 + 0x100_0000 * b3)
        } else {
            self.pos = self.data.len();
            Err(Error::parser_end_of_file())
        }
    }

    /// Reads `size` little-endian unsigned 32-bit values; with fewer
    /// than `size * 4` bytes left it fails, consuming what remains.
    #[verifier::loop_isolation(false)]
    pub fn next_slice(&mut self, size: usize) -> (r: Result<Vec<u32>, Error>)
        requires
            old(self).wf(),
        ensures
            final(self).wf(),
            final(self).data == old(self).data,
            old(self).pos + size * 4 <= old(self).bytes().len() ==> {
                &&& r matches Ok(words) && words@.len() == size && (forall|k: int|
                    0 <= k < size ==> words@[k] == le32_at(
                        old(self).bytes(),
                        old(self).pos + 4 * k,
                    ) as u32)
                &&& final(self).pos == old(self).pos + size * 4
            },
            old(self).pos + size * 4 > old(self).bytes().len() ==> {
                &&& r == Err::<Vec<u32>, Error>(eof_error())
                &&& final(self).pos == old(self).bytes().len()
            },
    {
        let ghost p0 = old(self).pos as int;
        let ghost n = old(self).bytes().len() as int;
        if size > (self.data.len() - self.pos) / 4 {
            proof {
                let sz = size as int;
                assert(p0 + sz * 4 > n) by (nonlinear_arith)
                    requires
                        sz > (n - p0) / 4,
                        0 <= p0 <= n,
                ;
            }
            self.pos = self.data.len();
            return Err(Error::parser_end_of_file());
        }
        proof {
            let sz = size as int;
            assert(p0 + sz * 4 <= n) by (nonlinear_arith)
                requires
                    sz <= (n - p0) / 4,
                    0 <= p0 <= n,
            ;
        }
        let mut words: Vec<u32> = Vec::new();
        let mut k: usize = 0;
        while k < size
            invariant
                self.wf(),
                self.data == old(self).data,
                0 <= k <= size,
                self.pos == old(self).pos + k * 4,
                old(self).pos + size * 4 <= old(self).bytes().len(),
                words@.len() == k,
                forall|m: int| 0 <= m < k ==> words@[m] == le32_at(
                    old(self).bytes(),
                    old(self).pos + 4 * m,
                ) as u32,
            decreases size - k,
        {
            proof {
                let ki = k as int;
                let sz = size as int;
                assert(ki * 4 + 4 <= sz * 4) by (nonlinear_arith)
                    requires
                        ki < sz,
                ;
            }
            match self.next_raw_u32() {
                Ok(w) => {
                    words.push(w);
                },
                Err(_) => {
                    proof {
                        assert(false);
                    }
                },
            }
            k = k + 1;
        }
        Ok(words)
    }
}

/// The position right after the line that starts at `i`: past its
/// newline, or the end of the buffer when the line has none.
pub open spec fn after_line(s: Seq<u8>, i: int) -> int {
    if find_nl(s, i) < s.len() {
        find_nl(s, i) + 1
    } else {
        find_nl(s, i)
    }
}

/// The line starting at `i` reads exactly `t`.
pub open spec fn line_matches(s: Seq<u8>, i: int, t: Seq<char>) -> bool {
    i < s.len() && chars_of(s.subrange(i, find_nl(s, i))) == t
}

/// Where the cursor stands after an optional comment line: past the
/// line when the marker matches at `i`, at `i` itself when it does
/// not.
pub open spec fn after_comment(s: Seq<u8>, i: int, mark: Seq<char>) -> int {
    if match_len(s, i, mark) == mark.len() {
        after_line(s, i + mark.len())
    } else {
        i
    }
}

/// The whitespace-delimited token at `i` is a nonempty digit run.
pub open spec fn uint_ok(s: Seq<u8>, i: int) -> bool {
    let a = find_non_ws(s, i);
    a < s.len() && all_digits(s.subrange(a, find_ws(s, a)))
}

/// Its wrapped 32-bit value.
pub open spec fn uint_val(s: Seq<u8>, i: int) -> int {
    dec_val(s.subrange(find_non_ws(s, i), find_ws(s, find_non_ws(s, i))))
}

/// The position after the token and its terminating whitespace.
pub open spec fn uint_end(s: Seq<u8>, i: int) -> int {
    let e = find_ws(s, find_non_ws(s, i));
    if e < s.len() {
        e + 1
    } else {
        e
    }
}

/// Position after the two header lines and up to two comments, where
/// the vertex-element declaration starts.
pub open spec fn ply_vertex_decl_pos(s: Seq<u8>) -> int {
    after_comment(
        s,
        after_comment(s, after_line(s, after_line(s, 0)), "comment"@),
        "comment"@,
    )
}

/// Position of the vertex-count token.
pub open spec fn ply_vertex_count_pos(s: Seq<u8>) -> int {
    req_words_end(s, ply_vertex_decl_pos(s), seq!["element"@, "vertex"@])
}

/// Position of the first vertex-property line.
pub open spec fn ply_props_pos(s: Seq<u8>) -> int {
    uint_end(s, ply_vertex_count_pos(s))
}

/// Position after the six fixed vertex-property lines.
pub open spec fn ply_after_props_pos(s: Seq<u8>) -> int {
    after_line(
        s,
        after_line(
            s,
            after_line(s, after_line(s, after_line(s, after_line(s, ply_props_pos(s))))),
        ),
    )
}

/// Position of the face-count token.
pub open spec fn ply_face_count_pos(s: Seq<u8>) -> int {
    req_words_end(s, ply_after_props_pos(s), seq!["element"@, "face"@])
}

/// Position where the binary body starts, right after the face
/// property line and the header terminator.
pub open spec fn ply_body_pos(s: Seq<u8>) -> int {
    after_line(s, after_line(s, uint_end(s, ply_face_count_pos(s))))
}

pub open spec fn ply_vertex_count(s: Seq<u8>) -> int {
    uint_val(s, ply_vertex_count_pos(s))
}

pub open spec fn ply_face_count(s: Seq<u8>) -> int {
    uint_val(s, ply_face_count_pos(s))
}

/// Position of the first face record, after the packed vertex floats.
pub open spec fn ply_faces_pos(s: Seq<u8>) -> int {
    ply_body_pos(s) + ply_vertex_count(s) * 24
}

/// The fixed ASCII header, line for line: the magic line, the format
/// line, the vertex element and its six float properties, the face
/// element with its list property, and the terminator, with the two
/// counts as digit runs.
pub open spec fn ply_header_ok(s: Seq<u8>) -> bool {
    &&& line_matches(s, 0, "ply"@)
    &&& line_matches(s, after_line(s, 0), "format binary_little_endian 1.0"@)
    &&& req_words_match(s, ply_vertex_decl_pos(s), seq!["element"@, "vertex"@])
    &&& uint_ok(s, ply_vertex_count_pos(s))
    &&& line_matches(s, ply_props_pos(s), "property float x"@)
    &&& line_matches(s, after_line(s, ply_props_pos(s)), "property float y"@)
    &&& line_matches(s, after_line(s, after_line(s, ply_props_pos(s))), "property float z"@)
    &&& line_matches(
        s,
        after_line(s, after_line(s, after_line(s, ply_props_pos(s)))),
        "property float nx"@,
    )
    &&& line_matches(
        s,
        after_line(s, after_line(s, after_line(s, after_line(s, ply_props_pos(s))))),
        "property float ny"@,
    )
    &&& line_matches(
        s,
        after_line(
            s,
            after_line(s, after_line(s, after_line(s, after_line(s, ply_props_pos(s))))),
        ),
        "property float nz"@,
    )
    &&& req_words_match(s, ply_after_props_pos(s), seq!["element"@, "face"@])
    &&& uint_ok(s, ply_face_count_pos(s))
    &&& line_matches(
        s,
        uint_end(s, ply_face_count_pos(s)),
        "property list uchar uint vertex_indices"@,
    )
    &&& line_matches(s, after_line(s, uint_end(s, ply_face_count_pos(s))), "end_header"@)
}

/// Each of the `n` face records at `p` is a count byte of exactly 3
/// followed by three 32-bit indices.
pub open spec fn faces_ok(s: Seq<u8>, p: int, n: nat) -> bool
    decreases n,
{
    if n == 0 {
        true
    } else {
        p + 13 <= s.len() && s[p] == 3 && faces_ok(s, p + 13, (n - 1) as nat)
    }
}

/// The first of the `n` face records at `p` that is not whole stops
/// the scan with its count byte readable but different from 3; a
/// record cut off by the end of the buffer stops it otherwise.
pub open spec fn faces_fail_arity(s: Seq<u8>, p: int, n: nat) -> bool
    decreases n,
{
    if n == 0 {
        false
    } else if p + 13 <= s.len() && s[p] == 3 {
        faces_fail_arity(s, p + 13, (n - 1) as nat)
    } else {
        p < s.len() && s[p] != 3
    }
}

/// The position of the first failing face record.
pub open spec fn faces_fail_pos(s: Seq<u8>, p: int, n: nat) -> int
    decreases n,
{
    if n == 0 {
        p
    } else if p + 13 <= s.len() && s[p] == 3 {
        faces_fail_pos(s, p + 13, (n - 1) as nat)
    } else {
        p
    }
}

/// The three indices of each of the `n` face records at `p`, flat and
/// in order.
pub open spec fn face_idx(s: Seq<u8>, p: int, n: nat) -> Seq<u32>
    decreases n,
{
    if n == 0 {
        Seq::empty()
    } else {
        seq![
            le32_at(s, p + 1) as u32,
            le32_at(s, p + 5) as u32,
            le32_at(s, p + 9) as u32,
        ] + face_idx(s, p + 13, (n - 1) as nat)
    }
}

/// A whole well-formed mesh file: the fixed header, a full packed
/// vertex payload, and well-formed face records.
pub open spec fn ply_ok(s: Seq<u8>) -> bool {
    &&& ply_header_ok(s)
    &&& ply_body_pos(s) + ply_vertex_count(s) * 24 <= s.len()
    &&& faces_ok(s, ply_faces_pos(s), ply_face_count(s) as nat)
}

/// The packed vertex floats of the file, one 32-bit word per
/// component.
pub open spec fn ply_vertex_words(s: Seq<u8>) -> Seq<u32> {
    Seq::new(
        (ply_vertex_count(s) * 6) as nat,
        |k: int| le32_at(s, ply_body_pos(s) + 4 * k) as u32,
    )
}

/// The flat face indices of the file.
pub open spec fn ply_face_indices(s: Seq<u8>) -> Seq<u32> {
    face_idx(s, ply_faces_pos(s), ply_face_count(s) as nat)
}

/// Validates the fixed ASCII header and reads the two counts; on a
/// well-formed header the cursor stops exactly where the binary body
/// starts.
#[verifier::loop_isolation(false)]
#[verifier::rlimit(100)]
fn parse_ply_header(parser: &mut TextParser) -> (r: Result<(u32, u32), Error>)
    requires
        old(parser).wf(),
        old(parser).pos == 0,
    ensures
        final(parser).wf(),
        final(parser).data == old(parser).data,
        ply_header_ok(old(parser).bytes()) ==> (r matches Ok(counts) && {
            &&& counts.0 as int == ply_vertex_count(old(parser).bytes())
            &&& counts.1 as int == ply_face_count(old(parser).bytes())
            &&& final(parser).pos as int == ply_body_pos(old(parser).bytes())
        }),
        !ply_header_ok(old(parser).bytes()) ==> r is Err,
{
    let ghost s = parser.bytes();
    proof {
        reveal_strlit("comment");
        assert("comment"@.len() == 7);
    }
    if let Err(e) = parser.require_line("ply") {
        return Err(e);
    }
    proof {
        assert(parser.pos as int == after_line(s, 0));
    }
    if let Err(e) = parser.require_line("format binary_little_endian 1.0") {
        return Err(e);
    }
    proof {
        assert(parser.pos as int == after_line(s, after_line(s, 0)));
    }
    parser.skip_single_line_comment("comment");
    proof {
        assert(parser.pos as int == after_comment(s, after_line(s, after_line(s, 0)), "comment"@));
    }
    parser.skip_single_line_comment("comment");
    proof {
        assert(parser.pos as int == ply_vertex_decl_pos(s));
    }

    let ghost ev = seq!["element"@, "vertex"@];
    let words_ev = vec!["element", "vertex"];
    proof {
        assert(words_ev.deep_view() =~= ev);
    }
    if let Err(e) = parser.require_words(words_ev) {
        return Err(e);
    }
    proof {
        assert(parser.pos as int == ply_vertex_count_pos(s));
    }
    let vertex_count = match parser.next_ascii_uint32() {
        Ok(vertex_count) => vertex_count,
        Err(e) => {
            return Err(e);
        },
    };
    proof {
        assert(parser.pos as int == ply_props_pos(s));
        lemma_find_non_ws(s, ply_vertex_count_pos(s));
        assert(vertex_count as int == ply_vertex_count(s)) by {
            lemma_dec_val_bound(
                s.subrange(
                    find_non_ws(s, ply_vertex_count_pos(s)),
                    find_ws(s, find_non_ws(s, ply_vertex_count_pos(s))),
                ),
            );
        }
    }

    if let Err(e) = parser.require_line("property float x") {
        return Err(e);
    }
    proof {
        assert(parser.pos as int == after_line(s, ply_props_pos(s)));
    }
    if let Err(e) = parser.require_line("property float y") {
        return Err(e);
    }
    proof {
        assert(parser.pos as int == after_line(s, after_line(s, ply_props_pos(s))));
    }
    if let Err(e) = parser.require_line("property float z") {
        return Err(e);
    }
    proof {
        assert(parser.pos as int == after_line(s, after_line(s, after_line(s, ply_props_pos(s)))));
    }
    if let Err(e) = parser.require_line("property float nx") {
        return Err(e);
    }
    proof {
        assert(parser.pos as int == after_line(
            s,
            after_line(s, after_line(s, after_line(s, ply_props_pos(s)))),
        ));
    }
    if let Err(e) = parser.require_line("property float ny") {
        return Err(e);
    }
    proof {
        assert(parser.pos as int == after_line(
            s,
            after_line(s, after_line(s, after_line(s, after_line(s, ply_props_pos(s))))),
        ));
    }
    if let Err(e) = parser.require_line("property float nz") {
        return Err(e);
    }
    proof {
        assert(parser.pos as int == ply_after_props_pos(s));
    }

    let ghost ef = seq!["element"@, "face"@];
    let words_ef = vec!["element", "face"];
    proof {
        assert(words_ef.deep_view() =~= ef);
    }
    if let Err(e) = parser.require_words(words_ef) {
        return Err(e);
    }
    proof {
        assert(parser.pos as int == ply_face_count_pos(s));
    }
    let face_count = match parser.next_ascii_uint32() {
        Ok(face_count) => face_count,
        Err(e) => {
            return Err(e);
        },
    };
    proof {
        assert(parser.pos as int == uint_end(s, ply_face_count_pos(s)));
        lemma_find_non_ws(s, ply_face_count_pos(s));
        assert(face_count as int == ply_face_count(s)) by {
            lemma_dec_val_bound(
                s.subrange(
                    find_non_ws(s, ply_face_count_pos(s)),
                    find_ws(s, find_non_ws(s, ply_face_count_pos(s))),
                ),
            );
        }
    }
    if let Err(e) = parser.require_line("property list uchar uint vertex_indices") {
        return Err(e);
    }
    proof {
        assert(parser.pos as int == after_line(s, uint_end(s, ply_face_count_pos(s))));
    }
    if let Err(e) = parser.require_line("end_header") {
        return Err(e);
    }
    proof {
        assert(parser.pos as int == ply_body_pos(s));
        assert(line_matches(s, 0, "ply"@));
        assert(line_matches(s, after_line(s, 0), "format binary_little_endian 1.0"@));
        assert(req_words_match(s, ply_vertex_decl_pos(s), seq!["element"@, "vertex"@]));
        assert(uint_ok(s, ply_vertex_count_pos(s)));
        assert(line_matches(s, ply_props_pos(s), "property float x"@));
        assert(line_matches(s, after_line(s, ply_props_pos(s)), "property float y"@));
        assert(line_matches(s, after_line(s, after_line(s, ply_props_pos(s))), "property float z"@));
        assert(line_matches(
            s,
            after_line(s, after_line(s, after_line(s, ply_props_pos(s)))),
            "property float nx"@,
        ));
        assert(line_matches(
            s,
            after_line(s, after_line(s, after_line(s, after_line(s, ply_props_pos(s))))),
            "property float ny"@,
        ));
        assert(line_matches(
            s,
            after_line(
                s,
                after_line(s, after_line(s, after_line(s, after_line(s, ply_props_pos(s))))),
            ),
            "property float nz"@,
        ));
        assert(req_words_match(s, ply_after_props_pos(s), seq!["element"@, "face"@]));
        assert(uint_ok(s, ply_face_count_pos(s)));
        assert(line_matches(
            s,
            uint_end(s, ply_face_count_pos(s)),
            "property list uchar uint vertex_indices"@,
        ));
        assert(line_matches(s, after_line(s, uint_end(s, ply_face_count_pos(s))), "end_header"@));
        assert(ply_header_ok(s));
    }
    Ok((vertex_count, face_count))
}

/// Decodes one mesh file: validates the fixed ASCII header with the
/// text cursor, then reads the packed binary payload with a raw cursor
/// resumed at the exact byte the header ended on. Succeeds exactly on
/// well-formed files, handing back the vertex words and face indices
/// unchanged.
#[verifier::loop_isolation(false)]
#[verifier::rlimit(100)]
pub fn parse_mesh(data: Vec<u8>, name: &str) -> (r: Result<Mesh, Error>)
    ensures
        ply_ok(data@) ==> (r matches Ok(mesh) && {
            &&& mesh.wf()
            &&& mesh.vertexes@ == ply_vertex_words(data@)
            &&& mesh.vertex_indexes matches Some(ix) && ix@ == ply_face_indices(data@)
            &&& mesh.name@ == name@
            &&& mesh.shader matches VertexShader::Simple(sh) && {
                &&& sh.vertex_in.index is Some
                &&& sh.vertex_properties@.len() == 1
                &&& sh.vertex_properties@[0].name@ == "normal"@
                &&& sh.vertex_properties@[0].attribute_in.index is Some
            }
        }),
        !ply_ok(data@) ==> r is Err,
        ply_header_ok(data@) && ply_body_pos(data@) + ply_vertex_count(data@) * 24 <= data@.len()
            && faces_fail_arity(data@, ply_faces_pos(data@), ply_face_count(data@) as nat) ==> (
        r matches Err(e) && e.kind matches ErrorKind::PlyParser(msg) && msg@ == "Vertex count "@
            + crate::shader_attribute::dec_str(
            data@[faces_fail_pos(data@, ply_faces_pos(data@), ply_face_count(data@) as nat)] as nat,
        ) + " for face is not implimented"@),
{
    let ghost s = data@;
    let mut parser = TextParser::create_from_vec(data);
    let (vertex_count, face_count) = match parse_ply_header(&mut parser) {
        Ok(counts) => counts,
        Err(e) => {
            return Err(e);
        },
    };
    let mut raw = RawParser::from(&parser);
    let remaining = raw.get_remaining_bytes();
    let needed: u64 = (vertex_count as u64) * 24;
    if needed > remaining as u64 {
        proof {
            assert(ply_body_pos(s) + ply_vertex_count(s) * 24 > s.len());
        }
        return Err(Error::parser_end_of_file());
    }
    let size: usize = ((vertex_count as u64) * 6) as usize;
    proof {
        let vc = vertex_count as int;
        assert(vc * 6 * 4 == vc * 24) by (nonlinear_arith);
        assert(vc * 6 <= vc * 24) by (nonlinear_arith)
            requires
                vc >= 0,
        ;
    }
    let vertex_words = match raw.next_slice(size) {
        Ok(vertex_words) => vertex_words,
        Err(_) => {
            proof {
                assert(false);
            }
            return Err(Error::parser_end_of_file());
        },
    };
    proof {
        assert(vertex_words@ =~= ply_vertex_words(s));
        assert(raw.pos as int == ply_faces_pos(s));
    }

    let ghost q0 = raw.pos as int;
    let ghost fc = face_count as nat;
    let mut face_data: Vec<u32> = Vec::new();
    let mut i: u32 = 0;
    while i < face_count
        invariant
            raw.wf(),
            raw.bytes() == s,
            0 <= i <= face_count,
            raw.pos as int == q0 + 13 * (i as int),
            faces_ok(s, q0, fc) == faces_ok(s, raw.pos as int, (fc - i) as nat),
            faces_fail_arity(s, q0, fc) == faces_fail_arity(s, raw.pos as int, (fc - i) as nat),
            faces_fail_arity(s, raw.pos as int, (fc - i) as nat) ==> faces_fail_pos(s, q0, fc)
                == faces_fail_pos(s, raw.pos as int, (fc - i) as nat),
            faces_ok(s, raw.pos as int, (fc - i) as nat) ==> face_idx(s, q0, fc) == face_data@
                + face_idx(s, raw.pos as int, (fc - i) as nat),
            face_data@.len() == 3 * i,
        decreases face_count - i,
    {
        let ghost fp = raw.pos as int;
        let count = match raw.next_raw_u8() {
            Ok(count) => count,
            Err(e) => {
                proof {
                    assert(!faces_ok(s, fp, (fc - i) as nat));
                    assert(!faces_fail_arity(s, fp, (fc - i) as nat));
                }
                return Err(e);
            },
        };
        if count != 3 {
            proof {
                assert(!faces_ok(s, fp, (fc - i) as nat));
                assert(fp + 13 > s.len() || s[fp] != 3);
                assert(faces_fail_arity(s, fp, (fc - i) as nat));
                assert(faces_fail_pos(s, fp, (fc - i) as nat) == fp);
            }
            let mut message = "Vertex count ".to_owned();
            let count_text = u32_to_string(count as u32);
            message.append(count_text.as_str());
            message.append(" for face is not implimented");
            return Err(Error::ply_parser(message));
        }
        let i0 = match raw.next_raw_u32() {
            Ok(i0) => i0,
            Err(e) => {
                proof {
                    assert(!faces_ok(s, fp, (fc - i) as nat));
                }
                return Err(e);
            },
        };
        face_data.push(i0);
        let i1 = match raw.next_raw_u32() {
            Ok(i1) => i1,
            Err(e) => {
                proof {
                    assert(!faces_ok(s, fp, (fc - i) as nat));
                }
                return Err(e);
            },
        };
        face_data.push(i1);
        let i2 = match raw.next_raw_u32() {
            Ok(i2) => i2,
            Err(e) => {
                proof {
                    assert(!faces_ok(s, fp, (fc - i) as nat));
                }
                return Err(e);
            },
        };
        face_data.push(i2);
        proof {
            assert(faces_ok(s, fp, (fc - i) as nat) == faces_ok(s, fp + 13, (fc - i - 1) as nat));
            if faces_ok(s, fp + 13, (fc - i - 1) as nat) {
                assert(face_idx(s, fp, (fc - i) as nat) =~= seq![
                    le32_at(s, fp + 1) as u32,
                    le32_at(s, fp + 5) as u32,
                    le32_at(s, fp + 9) as u32,
                ] + face_idx(s, fp + 13, (fc - i - 1) as nat));
            }
        }
        i = i + 1;
    }
    proof {
        assert(faces_ok(s, raw.pos as int, 0));
        assert(face_idx(s, raw.pos as int, 0) =~= Seq::<u32>::empty());
        assert(face_data@ + Seq::<u32>::empty() =~= face_data@);
        assert(ply_ok(s));
    }

    let shader = VertexShader::default_simple_with_normal();
    proof {
        match &shader {
            VertexShader::Simple(sh) => {
                assert(sh.vertex_properties@.drop_last() =~= Seq::<
                    crate::shader_attribute::ShaderAttributePair,
                >::empty());
                assert(sh.vertex_properties@.len() == 1);
                assert(sh.vertex_properties@.last() == sh.vertex_properties@[0]);
                assert(sh.vertex_properties@[0].attribute_in.size == 3);
                assert(crate::mesh::sum_sizes(sh.vertex_properties@.drop_last()) == 0);
                assert(crate::mesh::sum_sizes(sh.vertex_properties@) == 3);
                assert(crate::mesh::floats_per_vertex(&shader) == 6);
            },
        }
        let vc = vertex_count as int;
        assert((vc * 6) % 6 == 0) by (nonlinear_arith);
        assert((3 * vc) % 3 == 0) by (nonlinear_arith);
    }
    Ok(Mesh::create_indexed(vertex_words, face_data, shader, name))
}

} // verus!
