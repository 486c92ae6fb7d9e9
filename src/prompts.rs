//! Prompt templates for each kind of entity and round.
use vstd::prelude::*;
use crate::text::{replace_all, replace_text};

verus! {

/// Prompts for the rounds about a module.
#[derive(Clone, Debug)]
pub struct ModulePrompts {
    pub description: String,
    pub security_level: String,
    pub warnings: String,
}

/// Prompts for the rounds about a struct; each may name the struct with the
/// placeholder `{struct_name}`.
#[derive(Clone, Debug)]
pub struct StructPrompts {
    pub description: String,
    pub ownership: String,
    pub warnings: String,
}

/// All prompt templates, with the instruction that opens every conversation.
#[derive(Clone, Debug)]
pub struct Prompts {
    pub developer: String,
    pub module: ModulePrompts,
    pub structure: StructPrompts,
}

/// The placeholder that stands for a struct's name in a template.
pub open spec fn struct_placeholder() -> Seq<char> {
    "{struct_name}"@
}

/// A template with the struct's name put in for every placeholder.
pub open spec fn for_struct(template: Seq<char>, name: Seq<char>) -> Seq<char> {
    replace_all(template, struct_placeholder(), name)
}

/// Puts `name` in for every placeholder of `template`.
pub fn fill_struct_name(template: &str, name: &str) -> (r: String)
    ensures
        r@ == for_struct(template@, name@),
{
    proof {
        reveal_strlit("{struct_name}");
    }
    replace_text(template, "{struct_name}", name)
}

impl StructPrompts {
    /// The description prompt for the struct `name`.
    pub fn description_for(&self, name: &str) -> (r: String)
        ensures
            r@ == for_struct(self.description@, name@),
    {
        fill_struct_name(self.description.as_str(), name)
    }

    /// The ownership prompt for the struct `name`.
    pub fn ownership_for(&self, name: &str) -> (r: String)
        ensures
            r@ == for_struct(self.ownership@, name@),
    {
        fill_struct_name(self.ownership.as_str(), name)
    }

    /// The warnings prompt for the struct `name`.
    pub fn warnings_for(&self, name: &str) -> (r: String)
        ensures
            r@ == for_struct(self.warnings@, name@),
    {
        fill_struct_name(self.warnings.as_str(), name)
    }
}

} // verus!
