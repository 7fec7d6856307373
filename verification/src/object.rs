//! A scene object: one material and one mesh, resolved by name at
//! creation, plus the lazily attached handle of its compiled program.
//! Program compilation itself belongs to the GPU backend; once a
//! handle is attached it stands for a program built from exactly the
//! dependencies the object was created with.
use vstd::prelude::*;

verus! {

#[derive(Debug)]
pub struct Object {
    pub name: String,
    pub material: String,
    pub mesh: String,
    pub program: Option<u64>,
}

impl Object {
    /// A fresh object over already-resolved dependency names, with no
    /// program attached yet.
    pub fn create(material: &str, mesh: &str, name: &str) -> (r: Self)
        ensures
            r.name@ == name@,
            r.material@ == material@,
            r.mesh@ == mesh@,
            r.program is None,
    {
        Self {
            name: name.to_owned(),
            material: material.to_owned(),
            mesh: mesh.to_owned(),
            program: None,
        }
    }

    pub fn get_name(&self) -> (r: &str)
        ensures
            r@ == self.name@,
    {
        self.name.as_str()
    }

    pub fn get_material_name(&self) -> (r: &str)
        ensures
            r@ == self.material@,
    {
        self.material.as_str()
    }

    pub fn get_mesh_name(&self) -> (r: &str)
        ensures
            r@ == self.mesh@,
    {
        self.mesh.as_str()
    }

    /// Records the handle of the program the backend linked for this
    /// object's (material, mesh) pair.
    pub fn attach_program(&mut self, program: u64)
        ensures
            *final(self) == (Object { program: Some(program), ..*old(self) }),
    {
        self.program = Some(program);
    }

    pub fn get_program(&self) -> (r: Option<u64>)
        ensures
            r == self.program,
    {
        self.program
    }
}

} // verus!
