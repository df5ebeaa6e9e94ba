use vstd::prelude::*;
use crate::syntax_node::{ProgramModel, ProgramNode};

verus! {

/// The parsed, structured representation of a program.
#[derive(Debug)]
pub struct SyntaxTree {
    root: ProgramNode,
}

impl View for SyntaxTree {
    type V = ProgramModel;

    closed spec fn view(&self) -> ProgramModel {
        self.root@
    }
}

impl SyntaxTree {
    pub fn new(root: ProgramNode) -> (r: SyntaxTree)
        ensures
            r@ == root@,
    {
        SyntaxTree { root }
    }

    pub fn get_root(&self) -> (r: &ProgramNode)
        ensures
            r@ == self@,
    {
        &self.root
    }
}

} // verus!
