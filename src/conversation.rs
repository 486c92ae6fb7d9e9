//! Conversations with the model and the context that opens them.
use vstd::prelude::*;
use vstd::string::*;
use crate::ids::{canonical_display, canonical_text};
use crate::records::{FullFunctionDescription, FullModuleDescription, StructDescription};

verus! {

/// Who speaks a message.
#[derive(Clone, Copy, Debug, PartialEq, Eq, Structural)]
pub enum Role {
    Developer,
    User,
    Assistant,
}

/// One message of a conversation.
#[derive(Debug)]
pub struct Message {
    pub role: Role,
    pub content: String,
}

impl Clone for Message {
    fn clone(&self) -> (r: Self)
        ensures
            r == *self,
    {
        Message { role: self.role, content: self.content.clone() }
    }
}

/// A message as plain values.
pub open spec fn message_view(m: Message) -> (Role, Seq<char>) {
    (m.role, m.content@)
}

/// A conversation as plain values.
pub open spec fn conversation_view(v: Seq<Message>) -> Seq<(Role, Seq<char>)> {
    v.map_values(|m: Message| message_view(m))
}

/// Copies a conversation.
pub fn copy_conversation(v: &Vec<Message>) -> (r: Vec<Message>)
    ensures
        r@ == v@,
{
    let mut r: Vec<Message> = Vec::new();
    let mut i: usize = 0;
    while i < v.len()
        invariant
            i <= v.len(),
            r@ == v@.subrange(0, i as int),
        decreases v.len() - i,
    {
        r.push(v[i].clone());
        i = i + 1;
        assert(r@ =~= v@.subrange(0, i as int));
    }
    assert(r@ =~= v@);
    r
}

/// The shape the model is asked to answer in.
#[derive(Clone, Copy, Debug, PartialEq, Eq, Structural)]
pub enum ResponseFormat {
    /// Free text.
    Text,
    /// A JSON array of strings.
    StringList,
    /// A JSON object of nullable ownership strings.
    Ownership,
}

/// One request to the model.
#[derive(Debug)]
pub struct ModelRequest {
    pub messages: Vec<Message>,
    pub format: ResponseFormat,
}

/// `"```"`: the fence around quoted text.
pub open spec fn fence() -> Seq<char> {
    "```"@
}

/// The line that introduces one struct of a dependency.
pub open spec fn struct_line(s: StructDescription) -> Seq<char> {
    "    - Struct "@ + s.struct_name@ + " description "@ + fence() + s.description@ + fence() + "\n"@
}

/// The line that introduces one function of a dependency.
pub open spec fn function_line(f: FullFunctionDescription) -> Seq<char> {
    "    - function "@ + f.function.function_name@ + " description "@ + fence()
        + f.function.description@ + fence() + "\n"@
}

/// The lines of the first `n` structs.
pub open spec fn struct_lines(s: Seq<StructDescription>, n: nat) -> Seq<char>
    decreases n,
{
    if n == 0 || n > s.len() {
        Seq::empty()
    } else {
        struct_lines(s, (n - 1) as nat) + struct_line(s[n - 1])
    }
}

/// The lines of the first `n` functions.
pub open spec fn function_lines(f: Seq<FullFunctionDescription>, n: nat) -> Seq<char>
    decreases n,
{
    if n == 0 || n > f.len() {
        Seq::empty()
    } else {
        function_lines(f, (n - 1) as nat) + function_line(f[n - 1])
    }
}

/// What the model is told of a dependency it has described before.
pub open spec fn dependency_summary(d: FullModuleDescription) -> Seq<char> {
    "*** Dependency "@ + canonical_text(d.module.id.key()) + " ***\n  - description "@ + fence()
        + d.module.description@ + fence() + "\n  - structs:\n"@ + struct_lines(
        d.structs@,
        d.structs@.len(),
    ) + "  - functions\n"@ + function_lines(d.functions@, d.functions@.len())
}

/// The message that presents the module under audit.
pub open spec fn source_message(s: Seq<char>) -> Seq<char> {
    "*** Decompiled module for audit ***: "@ + fence() + "move "@ + s + fence() + "\n"@
}

/// Writes what the model is told of a dependency.
pub fn summarize_dependency(d: &FullModuleDescription) -> (r: String)
    ensures
        r@ == dependency_summary(*d),
{
    let mut r = String::from_str("*** Dependency ");
    r.append(canonical_display(&d.module.id).as_str());
    r.append(" ***\n  - description ```");
    r.append(d.module.description.as_str());
    r.append("```\n  - structs:\n");
    proof {
        reveal_strlit("*** Dependency ");
        reveal_strlit(" ***\n  - description ```");
        reveal_strlit(" ***\n  - description ");
        reveal_strlit("```");
        reveal_strlit("```\n  - structs:\n");
        reveal_strlit("\n  - structs:\n");
    }
    assert(r@ =~= "*** Dependency "@ + canonical_text(d.module.id.key()) + " ***\n  - description "@
        + fence() + d.module.description@ + fence() + "\n  - structs:\n"@ + struct_lines(
        d.structs@,
        0,
    ));
    let mut i: usize = 0;
    while i < d.structs.len()
        invariant
            i <= d.structs.len(),
            r@ == "*** Dependency "@ + canonical_text(d.module.id.key()) + " ***\n  - description "@
                + fence() + d.module.description@ + fence() + "\n  - structs:\n"@ + struct_lines(
                d.structs@,
                i as nat,
            ),
        decreases d.structs.len() - i,
    {
        let s = &d.structs[i];
        r.append("    - Struct ");
        r.append(s.struct_name.as_str());
        r.append(" description ```");
        r.append(s.description.as_str());
        r.append("```\n");
        i = i + 1;
        proof {
            reveal_strlit("```\n");
            reveal_strlit("```");
            reveal_strlit("\n");
            reveal_strlit(" description ```");
            reveal_strlit(" description ");
        }
        assert(r@ =~= "*** Dependency "@ + canonical_text(d.module.id.key()) + " ***\n  - description "@
            + fence() + d.module.description@ + fence() + "\n  - structs:\n"@ + struct_lines(
            d.structs@,
            i as nat,
        ));
    }
    r.append("  - functions\n");
    let mut j: usize = 0;
    while j < d.functions.len()
        invariant
            j <= d.functions.len(),
            r@ == "*** Dependency "@ + canonical_text(d.module.id.key()) + " ***\n  - description "@
                + fence() + d.module.description@ + fence() + "\n  - structs:\n"@ + struct_lines(
                d.structs@,
                d.structs@.len(),
            ) + "  - functions\n"@ + function_lines(d.functions@, j as nat),
        decreases d.functions.len() - j,
    {
        let f = &d.functions[j];
        r.append("    - function ");
        r.append(f.function.function_name.as_str());
        r.append(" description ```");
        r.append(f.function.description.as_str());
        r.append("```\n");
        j = j + 1;
        proof {
            reveal_strlit("```\n");
            reveal_strlit("```");
            reveal_strlit("\n");
            reveal_strlit(" description ```");
            reveal_strlit(" description ");
        }
        assert(r@ =~= "*** Dependency "@ + canonical_text(d.module.id.key()) + " ***\n  - description "@
            + fence() + d.module.description@ + fence() + "\n  - structs:\n"@ + struct_lines(
            d.structs@,
            d.structs@.len(),
        ) + "  - functions\n"@ + function_lines(d.functions@, j as nat));
    }
    r
}

} // verus!

verus! {

/// Writes the message that presents the module under audit.
pub fn present_source(source: &str) -> (r: String)
    ensures
        r@ == source_message(source@),
{
    let mut r = String::from_str("*** Decompiled module for audit ***: ```move ");
    r.append(source);
    r.append("```\n");
    proof {
        reveal_strlit("*** Decompiled module for audit ***: ```move ");
        reveal_strlit("*** Decompiled module for audit ***: ");
        reveal_strlit("```");
        reveal_strlit("move ");
        reveal_strlit("```\n");
        reveal_strlit("\n");
    }
    assert(r@ =~= source_message(source@));
    r
}

/// The opening of every conversation about a module: the instruction, one
/// assistant message per dependency quoting its description, then the
/// module's source.
pub open spec fn opening(developer: Seq<char>, deps: Seq<FullModuleDescription>, source: Seq<char>) -> Seq<
    (Role, Seq<char>),
> {
    seq![(Role::Developer, developer)] + deps.map_values(
        |d: FullModuleDescription| (Role::Assistant, dependency_summary(d)),
    ) + seq![(Role::User, source_message(source))]
}

/// The descriptions at the given positions.
pub open spec fn picked(all: Seq<FullModuleDescription>, picks: Seq<usize>) -> Seq<FullModuleDescription> {
    picks.map_values(|p: usize| all[p as int])
}

/// Builds the opening of a conversation from the descriptions of the
/// dependencies at positions `picks` of `described`.
pub fn opening_conversation(
    developer: &str,
    described: &Vec<FullModuleDescription>,
    picks: &Vec<usize>,
    source: &str,
) -> (r: Vec<Message>)
    requires
        forall|k: int| 0 <= k < picks.len() ==> picks@[k] < described.len(),
    ensures
        conversation_view(r@) == opening(developer@, picked(described@, picks@), source@),
{
    let mut r: Vec<Message> = Vec::new();
    r.push(Message { role: Role::Developer, content: String::from_str(developer) });
    let mut i: usize = 0;
    while i < picks.len()
        invariant
            i <= picks.len(),
            forall|k: int| 0 <= k < picks.len() ==> picks@[k] < described.len(),
            conversation_view(r@) == seq![(Role::Developer, developer@)] + picked(
                described@,
                picks@.subrange(0, i as int),
            ).map_values(|d: FullModuleDescription| (Role::Assistant, dependency_summary(d))),
        decreases picks.len() - i,
    {
        let summary = summarize_dependency(&described[picks[i]]);
        let ghost before = r@;
        r.push(Message { role: Role::Assistant, content: summary });
        proof {
            assert(conversation_view(r@) =~= conversation_view(before).push(
                (Role::Assistant, dependency_summary(described@[picks@[i as int] as int])),
            ));
            assert(picked(described@, picks@.subrange(0, i + 1)) =~= picked(
                described@,
                picks@.subrange(0, i as int),
            ).push(described@[picks@[i as int] as int]));
        }
        i = i + 1;
        assert(conversation_view(r@) =~= seq![(Role::Developer, developer@)] + picked(
            described@,
            picks@.subrange(0, i as int),
        ).map_values(|d: FullModuleDescription| (Role::Assistant, dependency_summary(d))));
    }
    r.push(Message { role: Role::User, content: present_source(source) });
    assert(picks@.subrange(0, picks.len() as int) =~= picks@);
    assert(conversation_view(r@) =~= opening(developer@, picked(described@, picks@), source@));
    r
}

} // verus!
