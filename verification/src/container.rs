//! The resource registry: four independent name-keyed stores for
//! meshes, materials, objects and textures. Names are unique within
//! each category, and object creation is atomic: it resolves both
//! dependencies and the object name before anything is registered, so
//! a failure never leaves a partial registration behind.
use vstd::prelude::*;
use crate::error::{Error, ErrorKind, RESOURCE_ERROR};
use crate::material::Material;
use crate::mesh::Mesh;
use crate::object::Object;
use crate::texture::Texture;

verus! {

/// First entry index whose name reads `k`, or the entry count when
/// none does.
pub open spec fn find_name<T>(entries: Seq<(String, T)>, k: Seq<char>) -> int
    decreases entries.len(),
{
    if entries.len() == 0 {
        0
    } else if entries[0].0@ == k {
        0
    } else {
        1 + find_name(entries.skip(1), k)
    }
}

pub proof fn lemma_find_name<T>(entries: Seq<(String, T)>, k: Seq<char>)
    ensures
        0 <= find_name(entries, k) <= entries.len(),
        find_name(entries, k) < entries.len() ==> entries[find_name(entries, k)].0@ == k,
        forall|j: int| 0 <= j < find_name(entries, k) ==> entries[j].0@ != k,
    decreases entries.len(),
{
    if entries.len() > 0 && entries[0].0@ != k {
        lemma_find_name(entries.skip(1), k);
        assert forall|j: int| 0 <= j < find_name(entries, k) implies entries[j].0@ != k by {
            if j > 0 {
                assert(entries.skip(1)[j - 1] == entries[j]);
            }
        }
        if find_name(entries, k) < entries.len() {
            assert(entries.skip(1)[find_name(entries, k) - 1] == entries[find_name(entries, k)]);
        }
    }
}

/// Names in the store are pairwise distinct.
pub open spec fn names_unique<T>(entries: Seq<(String, T)>) -> bool {
    forall|i: int, j: int| 0 <= i < j < entries.len() ==> entries[i].0@ != entries[j].0@
}

/// Scans a store for a name.
fn lookup<T>(entries: &Vec<(String, T)>, name: &str) -> (r: usize)
    ensures
        r == find_name(entries@, name@),
{
    let ghost es = entries@;
    proof {
        lemma_find_name(es, name@);
    }
    let name_owned = name.to_owned();
    let mut i: usize = 0;
    while i < entries.len()
        invariant
            0 <= i <= es.len(),
            es == entries@,
            name_owned@ == name@,
            forall|j: int| 0 <= j < i ==> es[j].0@ != name@,
            0 <= find_name(es, name@) <= es.len(),
            find_name(es, name@) < es.len() ==> es[find_name(es, name@)].0@ == name@,
            forall|j: int| 0 <= j < find_name(es, name@) ==> es[j].0@ != name@,
        decreases es.len() - i,
    {
        if entries[i].0.eq(&name_owned) {
            proof {
                assert(find_name(es, name@) == i);
            }
            return i;
        }
        i = i + 1;
    }
    proof {
        assert(find_name(es, name@) == es.len());
    }
    i
}

pub struct Container {
    pub meshes: Vec<(String, Mesh)>,
    pub materials: Vec<(String, Material)>,
    pub objects: Vec<(String, Object)>,
    pub textures: Vec<(String, Texture)>,
}

impl Container {
    /// Names are unique within each category; the categories are
    /// independent of one another.
    pub open spec fn wf(&self) -> bool {
        &&& names_unique(self.meshes@)
        &&& names_unique(self.materials@)
        &&& names_unique(self.objects@)
        &&& names_unique(self.textures@)
    }

    pub open spec fn has_mesh(&self, k: Seq<char>) -> bool {
        find_name(self.meshes@, k) < self.meshes@.len()
    }

    pub open spec fn has_material(&self, k: Seq<char>) -> bool {
        find_name(self.materials@, k) < self.materials@.len()
    }

    pub open spec fn has_object(&self, k: Seq<char>) -> bool {
        find_name(self.objects@, k) < self.objects@.len()
    }

    pub open spec fn has_texture(&self, k: Seq<char>) -> bool {
        find_name(self.textures@, k) < self.textures@.len()
    }

    pub fn new() -> (r: Self)
        ensures
            r.wf(),
            r.meshes@.len() == 0,
            r.materials@.len() == 0,
            r.objects@.len() == 0,
            r.textures@.len() == 0,
    {
        Self {
            meshes: Vec::new(),
            materials: Vec::new(),
            objects: Vec::new(),
            textures: Vec::new(),
        }
    }

    /// Registers a mesh under its own name; a taken name is refused
    /// with nothing changed.
    pub fn add_mesh(&mut self, mesh: Mesh) -> (r: Result<(), Error>)
        requires
            old(self).wf(),
        ensures
            final(self).wf(),
            old(self).has_mesh(mesh.name@) ==> {
                &&& r == Err::<(), Error>(Error {
                    kind: ErrorKind::MeshAlreadyExists,
                    options: RESOURCE_ERROR,
                })
                &&& *final(self) == *old(self)
            },
            !old(self).has_mesh(mesh.name@) ==> {
                &&& r == Ok::<(), Error>(())
                &&& final(self).meshes@.len() == old(self).meshes@.len() + 1
                &&& final(self).meshes@.take(old(self).meshes@.len() as int) == old(self).meshes@
                &&& final(self).meshes@.last().0@ == mesh.name@
                &&& final(self).meshes@.last().1 == mesh
                &&& final(self).materials == old(self).materials
                &&& final(self).objects == old(self).objects
                &&& final(self).textures == old(self).textures
            },
    {
        let at = lookup(&self.meshes, mesh.get_name().as_str());
        proof {
            lemma_find_name(self.meshes@, mesh.name@);
        }
        if at < self.meshes.len() {
            return Err(Error::mesh_already_exists());
        }
        let key = mesh.get_name().clone();
        self.meshes.push((key, mesh));
        proof {
            assert(final(self).meshes@.take(old(self).meshes@.len() as int) =~= old(self).meshes@);
            assert forall|i: int, j: int| 0 <= i < j < self.meshes@.len() implies self.meshes@[i].0@
                != self.meshes@[j].0@ by {
                if j == self.meshes@.len() - 1 {
                    assert(self.meshes@[i].0@ != mesh.name@);
                }
            }
        }
        Ok(())
    }

    /// Registers a material under its own name; a taken name is
    /// refused with nothing changed.
    pub fn add_material(&mut self, material: Material) -> (r: Result<(), Error>)
        requires
            old(self).wf(),
        ensures
            final(self).wf(),
            old(self).has_material(material.name@) ==> {
                &&& r == Err::<(), Error>(Error {
                    kind: ErrorKind::MaterialAlreadyExists,
                    options: RESOURCE_ERROR,
                })
                &&& *final(self) == *old(self)
            },
            !old(self).has_material(material.name@) ==> {
                &&& r == Ok::<(), Error>(())
                &&& final(self).materials@.len() == old(self).materials@.len() + 1
                &&& final(self).materials@.take(old(self).materials@.len() as int) == old(
                    self,
                ).materials@
                &&& final(self).materials@.last().0@ == material.name@
                &&& final(self).materials@.last().1 == material
                &&& final(self).meshes == old(self).meshes
                &&& final(self).objects == old(self).objects
                &&& final(self).textures == old(self).textures
            },
    {
        let at = lookup(&self.materials, material.get_name());
        proof {
            lemma_find_name(self.materials@, material.name@);
        }
        if at < self.materials.len() {
            return Err(Error::material_already_exists());
        }
        let key = material.name.clone();
        self.materials.push((key, material));
        proof {
            assert(final(self).materials@.take(old(self).materials@.len() as int) =~= old(
                self,
            ).materials@);
            assert forall|i: int, j: int| 0 <= i < j < self.materials@.len() implies self.materials@[i].0@
                != self.materials@[j].0@ by {
                if j == self.materials@.len() - 1 {
                    assert(self.materials@[i].0@ != material.name@);
                }
            }
        }
        Ok(())
    }

    /// Registers a texture under the given name; a taken name is
    /// refused with nothing changed.
    pub fn add_texture_handle(&mut self, name: &str, texture: Texture) -> (r: Result<(), Error>)
        requires
            old(self).wf(),
        ensures
            final(self).wf(),
            old(self).has_texture(name@) ==> {
                &&& r == Err::<(), Error>(Error {
                    kind: ErrorKind::TextureAlreadyExists,
                    options: RESOURCE_ERROR,
                })
                &&& *final(self) == *old(self)
            },
            !old(self).has_texture(name@) ==> {
                &&& r == Ok::<(), Error>(())
                &&& final(self).textures@.len() == old(self).textures@.len() + 1
                &&& final(self).textures@.take(old(self).textures@.len() as int) == old(
                    self,
                ).textures@
                &&& final(self).textures@.last().0@ == name@
                &&& final(self).textures@.last().1 == texture
                &&& final(self).meshes == old(self).meshes
                &&& final(self).materials == old(self).materials
                &&& final(self).objects == old(self).objects
            },
    {
        let at = lookup(&self.textures, name);
        proof {
            lemma_find_name(self.textures@, name@);
        }
        if at < self.textures.len() {
            return Err(Error::texture_already_exists());
        }
        self.textures.push((name.to_owned(), texture));
        proof {
            assert(final(self).textures@.take(old(self).textures@.len() as int) =~= old(
                self,
            ).textures@);
            assert forall|i: int, j: int| 0 <= i < j < self.textures@.len() implies self.textures@[i].0@
                != self.textures@[j].0@ by {
                if j == self.textures@.len() - 1 {
                    assert(self.textures@[i].0@ != name@);
                }
            }
        }
        Ok(())
    }

    /// Creates and registers an object against already-registered
    /// dependencies. Resolution happens before anything is stored:
    /// a missing material, then a missing mesh, then a taken object
    /// name each abort with the registry untouched.
    pub fn create_object(&mut self, object_name: &str, material_name: &str, mesh_name: &str) -> (r:
        Result<(), Error>)
        requires
            old(self).wf(),
        ensures
            final(self).wf(),
            !old(self).has_material(material_name@) ==> {
                &&& r == Err::<(), Error>(Error {
                    kind: ErrorKind::MaterialDoesNotExist,
                    options: RESOURCE_ERROR,
                })
                &&& *final(self) == *old(self)
            },
            old(self).has_material(material_name@) && !old(self).has_mesh(mesh_name@) ==> {
                &&& r == Err::<(), Error>(Error {
                    kind: ErrorKind::MeshDoesNotExist,
                    options: RESOURCE_ERROR,
                })
                &&& *final(self) == *old(self)
            },
            old(self).has_material(material_name@) && old(self).has_mesh(mesh_name@) && old(
                self,
            ).has_object(object_name@) ==> {
                &&& r == Err::<(), Error>(Error {
                    kind: ErrorKind::ObjectAlreadyExists,
                    options: RESOURCE_ERROR,
                })
                &&& *final(self) == *old(self)
            },
            old(self).has_material(material_name@) && old(self).has_mesh(mesh_name@) && !old(
                self,
            ).has_object(object_name@) ==> {
                &&& r == Ok::<(), Error>(())
                &&& final(self).objects@.len() == old(self).objects@.len() + 1
                &&& final(self).objects@.take(old(self).objects@.len() as int) == old(self).objects@
                &&& final(self).objects@.last().0@ == object_name@
                &&& final(self).objects@.last().1.name@ == object_name@
                &&& final(self).objects@.last().1.material@ == material_name@
                &&& final(self).objects@.last().1.mesh@ == mesh_name@
                &&& final(self).objects@.last().1.program is None
                &&& final(self).meshes == old(self).meshes
                &&& final(self).materials == old(self).materials
                &&& final(self).textures == old(self).textures
            },
    {
        let material_at = lookup(&self.materials, material_name);
        proof {
            lemma_find_name(self.materials@, material_name@);
        }
        if material_at == self.materials.len() {
            return Err(Error::material_does_not_exist());
        }
        let mesh_at = lookup(&self.meshes, mesh_name);
        proof {
            lemma_find_name(self.meshes@, mesh_name@);
        }
        if mesh_at == self.meshes.len() {
            return Err(Error::mesh_does_not_exist());
        }
        let object_at = lookup(&self.objects, object_name);
        proof {
            lemma_find_name(self.objects@, object_name@);
        }
        if object_at < self.objects.len() {
            return Err(Error::object_already_exists());
        }
        let new_object = Object::create(material_name, mesh_name, object_name);
        self.objects.push((object_name.to_owned(), new_object));
        proof {
            assert(final(self).objects@.take(old(self).objects@.len() as int) =~= old(
                self,
            ).objects@);
            assert forall|i: int, j: int| 0 <= i < j < self.objects@.len() implies self.objects@[i].0@
                != self.objects@[j].0@ by {
                if j == self.objects@.len() - 1 {
                    assert(self.objects@[i].0@ != object_name@);
                }
            }
        }
        Ok(())
    }

    /// The registered material of that name, exactly when one exists.
    pub fn get_material(&self, name: &str) -> (r: Option<&Material>)
        ensures
            self.has_material(name@) ==> (r matches Some(m) && m == &self.materials@[find_name(
                self.materials@,
                name@,
            )].1),
            !self.has_material(name@) ==> r is None,
    {
        let at = lookup(&self.materials, name);
        if at < self.materials.len() {
            Some(&self.materials[at].1)
        } else {
            None
        }
    }

    /// The registered mesh of that name, exactly when one exists.
    pub fn get_mesh(&self, name: &str) -> (r: Option<&Mesh>)
        ensures
            self.has_mesh(name@) ==> (r matches Some(m) && m == &self.meshes@[find_name(
                self.meshes@,
                name@,
            )].1),
            !self.has_mesh(name@) ==> r is None,
    {
        let at = lookup(&self.meshes, name);
        if at < self.meshes.len() {
            Some(&self.meshes[at].1)
        } else {
            None
        }
    }

    /// The registered object of that name, exactly when one exists.
    pub fn get_object(&self, name: &str) -> (r: Option<&Object>)
        ensures
            self.has_object(name@) ==> (r matches Some(o) && o == &self.objects@[find_name(
                self.objects@,
                name@,
            )].1),
            !self.has_object(name@) ==> r is None,
    {
        let at = lookup(&self.objects, name);
        if at < self.objects.len() {
            Some(&self.objects[at].1)
        } else {
            None
        }
    }

    /// The registered texture of that name, exactly when one exists.
    pub fn get_texture(&self, name: &str) -> (r: Option<&Texture>)
        ensures
            self.has_texture(name@) ==> (r matches Some(t) && t == &self.textures@[find_name(
                self.textures@,
                name@,
            )].1),
            !self.has_texture(name@) ==> r is None,
    {
        let at = lookup(&self.textures, name);
        if at < self.textures.len() {
            Some(&self.textures[at].1)
        } else {
            None
        }
    }

    /// A mutable borrow of the registered object of that name, for
    /// attaching its program once the backend has linked it.
    pub fn get_object_mut(&mut self, name: &str) -> (r: Option<&mut Object>)
        requires
            old(self).wf(),
        ensures
            final(self).wf(),
            !old(self).has_object(name@) ==> (r is None && *final(self) == *old(self)),
            old(self).has_object(name@) ==> (r matches Some(o) && {
                let f = find_name(old(self).objects@, name@);
                &&& *o == old(self).objects@[f].1
                &&& final(self).objects@ == old(self).objects@.update(
                    f,
                    (old(self).objects@[f].0, *final(o)),
                )
                &&& final(self).meshes == old(self).meshes
                &&& final(self).materials == old(self).materials
                &&& final(self).textures == old(self).textures
            }),
    {
        let at = lookup(&self.objects, name);
        proof {
            lemma_find_name(self.objects@, name@);
        }
        if at == self.objects.len() {
            return None;
        }
        let entry = &mut self.objects[at];
        Some(&mut entry.1)
    }

    /// Every registered object name, in registration order.
    pub fn get_object_names(&self) -> (r: Vec<String>)
        ensures
            r@.len() == self.objects@.len(),
            forall|i: int| 0 <= i < r@.len() ==> r@[i]@ == self.objects@[i].0@,
    {
        let mut r: Vec<String> = Vec::new();
        let mut i: usize = 0;
        while i < self.objects.len()
            invariant
                0 <= i <= self.objects@.len(),
                r@.len() == i,
                forall|j: int| 0 <= j < i ==> r@[j]@ == self.objects@[j].0@,
            decreases self.objects@.len() - i,
        {
            r.push(self.objects[i].0.clone());
            i = i + 1;
        }
        r
    }
}

} // verus!
