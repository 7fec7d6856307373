//! The single error type shared by the parser, the resource registry and the
//! reference dictionary. Every error carries a kind, and an options bitset
//! telling which family it belongs to.
use vstd::prelude::*;

verus! {

pub type OptionsType = u8;

pub const NONE: OptionsType = 0;
pub const RESOURCE_ERROR: OptionsType = 1;
pub const REF_DICT_ERROR: OptionsType = 2;
pub const PARSER_ERROR: OptionsType = 4;

#[derive(Debug, PartialEq)]
pub struct ParserUnknownCharContent {
    pub expected_char: char,
    pub received_char: char,
    pub line_number: usize,
    pub column_number: usize,
}

#[derive(Debug, PartialEq)]
pub struct ParserUnknownWordContent {
    pub expected_word: String,
    pub received_word: String,
    pub line_number: usize,
    pub column_number: usize,
}

#[derive(Debug, PartialEq)]
pub struct ParserUnknownLineContent {
    pub expected_line: String,
    pub received_line: String,
    pub line_number: usize,
}

#[derive(Debug, PartialEq)]
pub struct ParserInvalidAsciiIntContent {
    pub received_word: String,
    pub line_number: usize,
    pub column_number: usize,
}

#[derive(Debug, PartialEq)]
pub struct ParserUnknownStrContent {
    pub expected: String,
    pub received: String,
    pub line_number: usize,
    pub column_number: usize,
}

impl ParserUnknownStrContent {
    pub fn create(expected_str: &str, received_str: &str, line_number: usize, column_number: usize) -> (r: Self)
        ensures
            r.expected@ == expected_str@,
            r.received@ == received_str@,
            r.line_number == line_number,
            r.column_number == column_number,
    {
        Self {
            expected: expected_str.to_owned(),
            received: received_str.to_owned(),
            line_number,
            column_number,
        }
    }
}

#[derive(Debug, PartialEq)]
pub enum ErrorKind {
    Unknown(String),
    UnknownIO(String),
    UnknownImage(String),
    MeshDoesNotExist,
    MaterialDoesNotExist,
    ObjectDoesNotExist,
    TextureDoesNotExist,
    MeshAlreadyExists,
    MaterialAlreadyExists,
    ObjectAlreadyExists,
    TextureAlreadyExists,
    LoadingFile(String, String),
    LoadingImage(String),
    InvalidShaderSource(String),
    InvalidBuffer(String),
    InvalidGLProgram(String),
    InvalidHomeDir,
    ValueAlreadyExists,
    ValueDoesNotExist,
    ParserUnknownChar(ParserUnknownCharContent),
    ParserUnknownWord(ParserUnknownWordContent),
    ParserUnknownLine(ParserUnknownLineContent),
    ParserUnknownStr(ParserUnknownStrContent),
    ParserEndOfFile,
    ParserInvalidAsciiInt(ParserInvalidAsciiIntContent),
    PlyParser(String),
}

#[derive(Debug, PartialEq)]
pub struct Error {
    pub kind: ErrorKind,
    pub options: OptionsType,
}

impl Error {
    pub fn get_kind(self) -> (r: ErrorKind)
        ensures
            r == self.kind,
    {
        self.kind
    }

    pub fn get_options(self) -> (r: OptionsType)
        ensures
            r == self.options,
    {
        self.options
    }

    pub fn is_resource_error(self) -> (r: bool)
        ensures
            r == (self.options & RESOURCE_ERROR > 0),
    {
        self.options & RESOURCE_ERROR > 0
    }

    pub fn is_ref_dict_error(self) -> (r: bool)
        ensures
            r == (self.options & REF_DICT_ERROR > 0),
    {
        self.options & REF_DICT_ERROR > 0
    }

    pub fn unknown(error_name: String) -> (r: Self)
        ensures
            r == (Error { kind: ErrorKind::Unknown(error_name), options: NONE }),
    {
        Self { kind: ErrorKind::Unknown(error_name), options: NONE }
    }

    pub fn unknown_io(io_error: String) -> (r: Self)
        ensures
            r == (Error { kind: ErrorKind::UnknownIO(io_error), options: NONE }),
    {
        Self { kind: ErrorKind::UnknownIO(io_error), options: NONE }
    }

    pub fn unknown_image(image_error: String) -> (r: Self)
        ensures
            r == (Error { kind: ErrorKind::UnknownImage(image_error), options: NONE }),
    {
        Self { kind: ErrorKind::UnknownImage(image_error), options: NONE }
    }

    pub fn mesh_does_not_exist() -> (r: Self)
        ensures
            r == (Error { kind: ErrorKind::MeshDoesNotExist, options: RESOURCE_ERROR }),
    {
        Self { kind: ErrorKind::MeshDoesNotExist, options: RESOURCE_ERROR }
    }

    pub fn material_does_not_exist() -> (r: Self)
        ensures
            r == (Error { kind: ErrorKind::MaterialDoesNotExist, options: RESOURCE_ERROR }),
    {
        Self { kind: ErrorKind::MaterialDoesNotExist, options: RESOURCE_ERROR }
    }

    pub fn object_does_not_exist() -> (r: Self)
        ensures
            r == (Error { kind: ErrorKind::ObjectDoesNotExist, options: RESOURCE_ERROR }),
    {
        Self { kind: ErrorKind::ObjectDoesNotExist, options: RESOURCE_ERROR }
    }

    pub fn texture_does_not_exist() -> (r: Self)
        ensures
            r == (Error { kind: ErrorKind::TextureDoesNotExist, options: RESOURCE_ERROR }),
    {
        Self { kind: ErrorKind::TextureDoesNotExist, options: RESOURCE_ERROR }
    }

    pub fn mesh_already_exists() -> (r: Self)
        ensures
            r == (Error { kind: ErrorKind::MeshAlreadyExists, options: RESOURCE_ERROR }),
    {
        Self { kind: ErrorKind::MeshAlreadyExists, options: RESOURCE_ERROR }
    }

    pub fn material_already_exists() -> (r: Self)
        ensures
            r == (Error { kind: ErrorKind::MaterialAlreadyExists, options: RESOURCE_ERROR }),
    {
        Self { kind: ErrorKind::MaterialAlreadyExists, options: RESOURCE_ERROR }
    }

    pub fn object_already_exists() -> (r: Self)
        ensures
            r == (Error { kind: ErrorKind::ObjectAlreadyExists, options: RESOURCE_ERROR }),
    {
        Self { kind: ErrorKind::ObjectAlreadyExists, options: RESOURCE_ERROR }
    }

    pub fn texture_already_exists() -> (r: Self)
        ensures
            r == (Error { kind: ErrorKind::TextureAlreadyExists, options: RESOURCE_ERROR }),
    {
        Self { kind: ErrorKind::TextureAlreadyExists, options: RESOURCE_ERROR }
    }

    pub fn loading_file(io_error: String, file_name: String) -> (r: Self)
        ensures
            r == (Error { kind: ErrorKind::LoadingFile(io_error, file_name), options: RESOURCE_ERROR }),
    {
        Self { kind: ErrorKind::LoadingFile(io_error, file_name), options: RESOURCE_ERROR }
    }

    pub fn loading_image(image_error: String) -> (r: Self)
        ensures
            r == (Error { kind: ErrorKind::LoadingImage(image_error), options: RESOURCE_ERROR }),
    {
        Self { kind: ErrorKind::LoadingImage(image_error), options: RESOURCE_ERROR }
    }

    pub fn invalid_shader_source(shader_error: String) -> (r: Self)
        ensures
            r == (Error { kind: ErrorKind::InvalidShaderSource(shader_error), options: RESOURCE_ERROR }),
    {
        Self { kind: ErrorKind::InvalidShaderSource(shader_error), options: RESOURCE_ERROR }
    }

    pub fn invalid_buffer(buffer_error: String) -> (r: Self)
        ensures
            r == (Error { kind: ErrorKind::InvalidBuffer(buffer_error), options: RESOURCE_ERROR }),
    {
        Self { kind: ErrorKind::InvalidBuffer(buffer_error), options: RESOURCE_ERROR }
    }

    pub fn invalid_gl_program(program_error: String) -> (r: Self)
        ensures
            r == (Error { kind: ErrorKind::InvalidGLProgram(program_error), options: RESOURCE_ERROR }),
    {
        Self { kind: ErrorKind::InvalidGLProgram(program_error), options: RESOURCE_ERROR }
    }

    pub fn invalid_home_dir() -> (r: Self)
        ensures
            r == (Error { kind: ErrorKind::InvalidHomeDir, options: RESOURCE_ERROR }),
    {
        Self { kind: ErrorKind::InvalidHomeDir, options: RESOURCE_ERROR }
    }

    pub fn value_already_exists() -> (r: Self)
        ensures
            r == (Error { kind: ErrorKind::ValueAlreadyExists, options: REF_DICT_ERROR }),
    {
        Self { kind: ErrorKind::ValueAlreadyExists, options: REF_DICT_ERROR }
    }

    pub fn value_does_not_exist() -> (r: Self)
        ensures
            r == (Error { kind: ErrorKind::ValueDoesNotExist, options: REF_DICT_ERROR }),
    {
        Self { kind: ErrorKind::ValueDoesNotExist, options: REF_DICT_ERROR }
    }

    pub fn parser_unknown_char(expected_char: char, received_char: char, line_number: usize, column_number: usize) -> (r: Self)
        ensures
            r == (Error {
                kind: ErrorKind::ParserUnknownChar(ParserUnknownCharContent {
                    expected_char,
                    received_char,
                    line_number,
                    column_number,
                }),
                options: PARSER_ERROR,
            }),
    {
        Self {
            kind: ErrorKind::ParserUnknownChar(ParserUnknownCharContent {
                expected_char,
                received_char,
                line_number,
                column_number,
            }),
            options: PARSER_ERROR,
        }
    }

    pub fn parser_unknown_word(expected_word: String, received_word: String, line_number: usize, column_number: usize) -> (r: Self)
        ensures
            r == (Error {
                kind: ErrorKind::ParserUnknownWord(ParserUnknownWordContent {
                    expected_word,
                    received_word,
                    line_number,
                    column_number,
                }),
                options: PARSER_ERROR,
            }),
    {
        Self {
            kind: ErrorKind::ParserUnknownWord(ParserUnknownWordContent {
                expected_word,
                received_word,
                line_number,
                column_number,
            }),
            options: PARSER_ERROR,
        }
    }

    pub fn parser_unknown_line(expected_line: String, received_line: String, line_number: usize) -> (r: Self)
        ensures
            r == (Error {
                kind: ErrorKind::ParserUnknownLine(ParserUnknownLineContent {
                    expected_line,
                    received_line,
                    line_number,
                }),
                options: PARSER_ERROR,
            }),
    {
        Self {
            kind: ErrorKind::ParserUnknownLine(ParserUnknownLineContent {
                expected_line,
                received_line,
                line_number,
            }),
            options: PARSER_ERROR,
        }
    }

    pub fn parser_unknown_str(expected_str: &str, received_str: &str, line_number: usize, column_number: usize) -> (r: Self)
        ensures
            r.options == PARSER_ERROR,
            r.kind matches ErrorKind::ParserUnknownStr(c)
                && c.expected@ == expected_str@
                && c.received@ == received_str@
                && c.line_number == line_number
                && c.column_number == column_number,
    {
        Self {
            kind: ErrorKind::ParserUnknownStr(ParserUnknownStrContent::create(
                expected_str,
                received_str,
                line_number,
                column_number,
            )),
            options: PARSER_ERROR,
        }
    }

    pub fn parser_end_of_file() -> (r: Self)
        ensures
            r == (Error { kind: ErrorKind::ParserEndOfFile, options: PARSER_ERROR }),
    {
        Self { kind: ErrorKind::ParserEndOfFile, options: PARSER_ERROR }
    }

    pub fn parser_invalid_ascii_int(received_word: String, line_number: usize, column_number: usize) -> (r: Self)
        ensures
            r == (Error {
                kind: ErrorKind::ParserInvalidAsciiInt(ParserInvalidAsciiIntContent {
                    received_word,
                    line_number,
                    column_number,
                }),
                options: PARSER_ERROR,
            }),
    {
        Self {
            kind: ErrorKind::ParserInvalidAsciiInt(ParserInvalidAsciiIntContent {
                received_word,
                line_number,
                column_number,
            }),
            options: PARSER_ERROR,
        }
    }

    pub fn ply_parser(message: String) -> (r: Self)
        ensures
            r == (Error { kind: ErrorKind::PlyParser(message), options: PARSER_ERROR }),
    {
        Self { kind: ErrorKind::PlyParser(message), options: PARSER_ERROR }
    }
}

/// The decimal text of an unsigned number.
pub open spec fn dec_text(n: nat) -> Seq<char>
    decreases n,
{
    if n < 10 {
        seq![((48 + n) as u8) as char]
    } else {
        dec_text(n / 10) + seq![((48 + n % 10) as u8) as char]
    }
}

/// The decimal text of `n`, one digit character at a time.
fn usize_to_text(n: usize) -> (r: String)
    ensures
        r@ == dec_text(n as nat),
    decreases n,
{
    if n < 10 {
        let mut r = String::new();
        r.push((48 + n as u8) as char);
        proof {
            assert(r@ =~= dec_text(n as nat));
        }
        r
    } else {
        let mut r = usize_to_text(n / 10);
        r.push((48 + (n % 10) as u8) as char);
        proof {
            assert(r@ =~= dec_text(n as nat));
        }
        r
    }
}

/// "(line,column)", as the parser diagnostics spell a position.
pub open spec fn position_text(line: nat, column: nat) -> Seq<char> {
    "("@ + dec_text(line) + ","@ + dec_text(column) + ")"@
}

fn position_to_text(line: usize, column: usize) -> (r: String)
    ensures
        r@ == position_text(line as nat, column as nat),
{
    let mut r = "(".to_owned();
    let line_text = usize_to_text(line);
    r.append(line_text.as_str());
    r.append(",");
    let column_text = usize_to_text(column);
    r.append(column_text.as_str());
    r.append(")");
    r
}

/// The "expected versus received" sentence the mismatch diagnostics
/// share.
pub open spec fn expected_received_text(
    expected: Seq<char>,
    received: Seq<char>,
    position: Seq<char>,
) -> Seq<char> {
    "Expected "@ + expected + " but received "@ + received + " at "@ + position
}

/// The description of each error kind, one line of plain text.
pub open spec fn kind_message(kind: ErrorKind) -> Seq<char> {
    match kind {
        ErrorKind::Unknown(e) => "Unknown error: "@ + e@,
        ErrorKind::UnknownIO(e) => "Unknown IO error ("@ + e@ + ")"@,
        ErrorKind::UnknownImage(e) => "Unknown image error("@ + e@ + ")"@,
        ErrorKind::MeshDoesNotExist => "Mesh does not exist"@,
        ErrorKind::MaterialDoesNotExist => "Material does not exist"@,
        ErrorKind::ObjectDoesNotExist => "Object does not exist"@,
        ErrorKind::TextureDoesNotExist => "Texture does not exist"@,
        ErrorKind::MeshAlreadyExists => "Mesh already exists"@,
        ErrorKind::MaterialAlreadyExists => "Material already exists"@,
        ErrorKind::ObjectAlreadyExists => "Object already exists"@,
        ErrorKind::TextureAlreadyExists => "Texture already exists"@,
        ErrorKind::LoadingFile(e, f) => "Could not find file "@ + f@ + " ("@ + e@ + ")"@,
        ErrorKind::LoadingImage(e) => "Problem loading image "@ + e@,
        ErrorKind::InvalidShaderSource(e) => "Problem compiling shader ("@ + e@ + ")"@,
        ErrorKind::InvalidBuffer(e) => "Problem creating buffer ("@ + e@ + ")"@,
        ErrorKind::InvalidGLProgram(e) => "Problem loading OpenGL program ("@ + e@ + ")"@,
        ErrorKind::InvalidHomeDir => "Could not find home dir"@,
        ErrorKind::ValueAlreadyExists => "Value already exists"@,
        ErrorKind::ValueDoesNotExist => "Value does not exist"@,
        ErrorKind::ParserUnknownChar(c) => "Parser error: Unknown char ("@
            + expected_received_text(
            seq![c.expected_char],
            seq![c.received_char],
            position_text(c.line_number as nat, c.column_number as nat),
        ) + ")"@,
        ErrorKind::ParserUnknownWord(c) => "Parser error: Unknown word ("@
            + expected_received_text(
            c.expected_word@,
            c.received_word@,
            position_text(c.line_number as nat, c.column_number as nat),
        ) + ")"@,
        ErrorKind::ParserUnknownLine(c) => "Parser error: Unknown line ("@
            + expected_received_text(c.expected_line@, c.received_line@, dec_text(c.line_number as nat))
            + ")"@,
        ErrorKind::ParserUnknownStr(c) => "Parser error: Unknown str ("@ + expected_received_text(
            c.expected@,
            c.received@,
            position_text(c.line_number as nat, c.column_number as nat),
        ) + ")"@,
        ErrorKind::ParserEndOfFile => "Parser error: Reached end of line."@,
        ErrorKind::ParserInvalidAsciiInt(c) => "Parser error: Cannot parse int from "@
            + c.received_word@ + " at "@ + position_text(
            c.line_number as nat,
            c.column_number as nat,
        ) + " is not an int"@,
        ErrorKind::PlyParser(m) => "Problem loading ply parser: "@ + m@,
    }
}

fn expected_received_to_text(expected: &str, received: &str, position: String) -> (r: String)
    ensures
        r@ == expected_received_text(expected@, received@, position@),
{
    let mut r = "Expected ".to_owned();
    r.append(expected);
    r.append(" but received ");
    r.append(received);
    r.append(" at ");
    r.append(position.as_str());
    r
}

impl Error {
    /// The error as one line of plain text, exactly as a log or a
    /// failed load reports it.
    pub fn message(&self) -> (r: String)
        ensures
            r@ == kind_message(self.kind),
    {
        match &self.kind {
            ErrorKind::Unknown(e) => {
                let mut r = "Unknown error: ".to_owned();
                r.append(e.as_str());
                r
            },
            ErrorKind::UnknownIO(e) => {
                let mut r = "Unknown IO error (".to_owned();
                r.append(e.as_str());
                r.append(")");
                r
            },
            ErrorKind::UnknownImage(e) => {
                let mut r = "Unknown image error(".to_owned();
                r.append(e.as_str());
                r.append(")");
                r
            },
            ErrorKind::MeshDoesNotExist => "Mesh does not exist".to_owned(),
            ErrorKind::MaterialDoesNotExist => "Material does not exist".to_owned(),
            ErrorKind::ObjectDoesNotExist => "Object does not exist".to_owned(),
            ErrorKind::TextureDoesNotExist => "Texture does not exist".to_owned(),
            ErrorKind::MeshAlreadyExists => "Mesh already exists".to_owned(),
            ErrorKind::MaterialAlreadyExists => "Material already exists".to_owned(),
            ErrorKind::ObjectAlreadyExists => "Object already exists".to_owned(),
            ErrorKind::TextureAlreadyExists => "Texture already exists".to_owned(),
            ErrorKind::LoadingFile(e, f) => {
                let mut r = "Could not find file ".to_owned();
                r.append(f.as_str());
                r.append(" (");
                r.append(e.as_str());
                r.append(")");
                r
            },
            ErrorKind::LoadingImage(e) => {
                let mut r = "Problem loading image ".to_owned();
                r.append(e.as_str());
                r
            },
            ErrorKind::InvalidShaderSource(e) => {
                let mut r = "Problem compiling shader (".to_owned();
                r.append(e.as_str());
                r.append(")");
                r
            },
            ErrorKind::InvalidBuffer(e) => {
                let mut r = "Problem creating buffer (".to_owned();
                r.append(e.as_str());
                r.append(")");
                r
            },
            ErrorKind::InvalidGLProgram(e) => {
                let mut r = "Problem loading OpenGL program (".to_owned();
                r.append(e.as_str());
                r.append(")");
                r
            },
            ErrorKind::InvalidHomeDir => "Could not find home dir".to_owned(),
            ErrorKind::ValueAlreadyExists => "Value already exists".to_owned(),
            ErrorKind::ValueDoesNotExist => "Value does not exist".to_owned(),
            ErrorKind::ParserUnknownChar(c) => {
                let mut expected = String::new();
                expected.push(c.expected_char);
                let mut received = String::new();
                received.push(c.received_char);
                let inner = expected_received_to_text(
                    expected.as_str(),
                    received.as_str(),
                    position_to_text(c.line_number, c.column_number),
                );
                let mut r = "Parser error: Unknown char (".to_owned();
                r.append(inner.as_str());
                r.append(")");
                proof {
                    assert(expected@ =~= seq![c.expected_char]);
                    assert(received@ =~= seq![c.received_char]);
                }
                r
            },
            ErrorKind::ParserUnknownWord(c) => {
                let inner = expected_received_to_text(
                    c.expected_word.as_str(),
                    c.received_word.as_str(),
                    position_to_text(c.line_number, c.column_number),
                );
                let mut r = "Parser error: Unknown word (".to_owned();
                r.append(inner.as_str());
                r.append(")");
                r
            },
            ErrorKind::ParserUnknownLine(c) => {
                let inner = expected_received_to_text(
                    c.expected_line.as_str(),
                    c.received_line.as_str(),
                    usize_to_text(c.line_number),
                );
                let mut r = "Parser error: Unknown line (".to_owned();
                r.append(inner.as_str());
                r.append(")");
                r
            },
            ErrorKind::ParserUnknownStr(c) => {
                let inner = expected_received_to_text(
                    c.expected.as_str(),
                    c.received.as_str(),
                    position_to_text(c.line_number, c.column_number),
                );
                let mut r = "Parser error: Unknown str (".to_owned();
                r.append(inner.as_str());
                r.append(")");
                r
            },
            ErrorKind::ParserEndOfFile => "Parser error: Reached end of line.".to_owned(),
            ErrorKind::ParserInvalidAsciiInt(c) => {
                let mut r = "Parser error: Cannot parse int from ".to_owned();
                r.append(c.received_word.as_str());
                r.append(" at ");
                let position = position_to_text(c.line_number, c.column_number);
                r.append(position.as_str());
                r.append(" is not an int");
                r
            },
            ErrorKind::PlyParser(m) => {
                let mut r = "Problem loading ply parser: ".to_owned();
                r.append(m.as_str());
                r
            },
        }
    }
}

} // verus!
