//! The model rounds that describe one module and its structs.
//!
//! The module rounds share one growing conversation: description, then
//! warnings, then security level, each seeing the replies before it. Each
//! struct then gets a description and a warnings round on a fresh copy of the
//! opening, and an ownership round on another fresh copy, so that no struct
//! sees what was said of the module or of another struct.
use vstd::prelude::*;
use crate::conversation::{
    conversation_view, copy_conversation, Message, ModelRequest, ResponseFormat, Role,
};
use crate::error::DescribeError;
use crate::ids::ModuleId;
use crate::prompts::{for_struct, Prompts};
use crate::records::{
    FullModuleDescription, ModuleDescription, Ownership, SecurityLevel, StructDescription,
};
use crate::reply::{
    level_reply, ownership_matches, json_nullable_string_object, parse_ownership,
    parse_security_level, parse_string_list, strings_view, strip_reasoning, warnings_reply,
    without_reasoning, ReplyError,
};

verus! {

/// How many replies a round reads before it gives up.
pub const MAX_ATTEMPTS: u32 = 3;

/// The round in progress.
#[derive(Clone, Copy, Debug, PartialEq, Eq, Structural)]
pub enum Stage {
    ModuleDescription,
    ModuleWarnings,
    ModuleLevel,
    StructDescription,
    StructWarnings,
    StructOwnership,
    Done,
    Failed(DescribeError),
}

/// The rounds for one module.
pub struct ModuleRounds {
    pub prompts: Prompts,
    pub target: ModuleId,
    pub network: String,
    /// The opening every conversation starts from.
    pub base: Vec<Message>,
    /// The conversation of the round in progress, without its prompt.
    pub conversation: Vec<Message>,
    pub stage: Stage,
    /// Replies read so far in the round in progress.
    pub attempts: u32,
    pub description: String,
    pub warnings: Vec<String>,
    pub security_level: SecurityLevel,
    pub struct_names: Vec<String>,
    /// The struct whose rounds are in progress.
    pub current: usize,
    pub struct_description: String,
    pub struct_warnings: Vec<String>,
    pub structs: Vec<StructDescription>,
}

/// The answer shape of each round.
pub open spec fn stage_format(s: Stage) -> ResponseFormat {
    match s {
        Stage::ModuleWarnings | Stage::StructWarnings => ResponseFormat::StringList,
        Stage::StructOwnership => ResponseFormat::Ownership,
        _ => ResponseFormat::Text,
    }
}

/// The error a round ends with when its replies run out.
pub open spec fn exhausted_error(s: Stage) -> DescribeError {
    match s {
        Stage::ModuleDescription | Stage::StructDescription => DescribeError::DescriptionGeneration,
        _ => DescribeError::Parse,
    }
}

/// Whether a round is in progress.
pub open spec fn active(s: Stage) -> bool {
    !(s is Done) && !(s is Failed)
}

impl ModuleRounds {
    /// The invariant.
    pub open spec fn wf(&self) -> bool {
        &&& self.attempts < MAX_ATTEMPTS
        &&& self.current <= self.struct_names@.len()
        &&& self.structs@.len() == self.current
        &&& (self.stage is StructDescription || self.stage is StructWarnings
            || self.stage is StructOwnership) ==> self.current < self.struct_names@.len()
        &&& (self.stage is ModuleDescription || self.stage is ModuleWarnings
            || self.stage is ModuleLevel) ==> self.current == 0
        &&& self.structs_ok()
    }

    /// Each struct described so far belongs to the module and has the name at
    /// its position.
    pub open spec fn structs_ok(&self) -> bool {
        forall|i: int|
            0 <= i < self.structs@.len() ==> (#[trigger] self.structs@[i]).module == self.target
                && self.structs@[i].network == self.network && self.structs@[i].struct_name
                == self.struct_names@[i]
    }

    /// No two structs of the module share a name.
    pub open spec fn distinct_names(&self) -> bool {
        forall|i: int, j: int|
            0 <= i < j < self.struct_names@.len() ==> (#[trigger] self.struct_names@[i])@
                != (#[trigger] self.struct_names@[j])@
    }

    /// The prompt of the round in progress.
    pub open spec fn stage_prompt(&self) -> Seq<char> {
        match self.stage {
            Stage::ModuleDescription => self.prompts.module.description@,
            Stage::ModuleWarnings => self.prompts.module.warnings@,
            Stage::ModuleLevel => self.prompts.module.security_level@,
            Stage::StructDescription => for_struct(
                self.prompts.structure.description@,
                self.struct_names@[self.current as int]@,
            ),
            Stage::StructWarnings => for_struct(
                self.prompts.structure.warnings@,
                self.struct_names@[self.current as int]@,
            ),
            Stage::StructOwnership => for_struct(
                self.prompts.structure.ownership@,
                self.struct_names@[self.current as int]@,
            ),
            _ => Seq::empty(),
        }
    }

    /// Starts the rounds for `target`, whose conversations open with `base`
    /// and whose structs are named `struct_names`.
    pub fn new(
        prompts: Prompts,
        target: ModuleId,
        network: String,
        base: Vec<Message>,
        struct_names: Vec<String>,
    ) -> (r: ModuleRounds)
        ensures
            r.wf(),
            r.stage == Stage::ModuleDescription,
            r.attempts == 0,
            r.conversation@ == base@,
            r.base == base,
            r.target == target,
            r.network == network,
            r.prompts == prompts,
            r.struct_names == struct_names,
    {
        let conversation = copy_conversation(&base);
        ModuleRounds {
            prompts,
            target,
            network,
            base,
            conversation,
            stage: Stage::ModuleDescription,
            attempts: 0,
            description: String::new(),
            warnings: Vec::new(),
            security_level: SecurityLevel::UnknownUnassessed,
            struct_names,
            current: 0,
            struct_description: String::new(),
            struct_warnings: Vec::new(),
            structs: Vec::new(),
        }
    }

    fn prompt(&self) -> (r: String)
        requires
            self.wf(),
            active(self.stage),
        ensures
            r@ == self.stage_prompt(),
    {
        match self.stage {
            Stage::ModuleDescription => self.prompts.module.description.clone(),
            Stage::ModuleWarnings => self.prompts.module.warnings.clone(),
            Stage::ModuleLevel => self.prompts.module.security_level.clone(),
            Stage::StructDescription => self.prompts.structure.description_for(
                self.struct_names[self.current].as_str(),
            ),
            Stage::StructWarnings => self.prompts.structure.warnings_for(
                self.struct_names[self.current].as_str(),
            ),
            _ => self.prompts.structure.ownership_for(self.struct_names[self.current].as_str()),
        }
    }

    /// The request of the round in progress: its conversation followed by
    /// its prompt. Nothing once the rounds are over.
    pub fn request(&self) -> (r: Option<ModelRequest>)
        requires
            self.wf(),
        ensures
            match r {
                Some(q) => active(self.stage) && conversation_view(q.messages@) == conversation_view(
                    self.conversation@,
                ).push((Role::User, self.stage_prompt())) && q.format == stage_format(self.stage),
                None => !active(self.stage),
            },
    {
        match self.stage {
            Stage::Done | Stage::Failed(_) => None,
            _ => {
                let mut messages = copy_conversation(&self.conversation);
                messages.push(Message { role: Role::User, content: self.prompt() });
                assert(conversation_view(messages@) =~= conversation_view(self.conversation@).push(
                    (Role::User, self.stage_prompt()),
                ));
                let format = match self.stage {
                    Stage::ModuleWarnings | Stage::StructWarnings => ResponseFormat::StringList,
                    Stage::StructOwnership => ResponseFormat::Ownership,
                    _ => ResponseFormat::Text,
                };
                Some(ModelRequest { messages, format })
            },
        }
    }
}


/// Copies a list of strings.
pub fn copy_strings(v: &Vec<String>) -> (r: Vec<String>)
    ensures
        r@ == v@,
{
    let mut r: Vec<String> = Vec::new();
    let mut i: usize = 0;
    while i < v.len()
        invariant
            i <= v.len(),
            r@ == v@.subrange(0, i as int),
        decreases v.len() - i,
    {
        r.push(v[i].clone());
        i = i + 1;
        assert(r@ =~= v@.subrange(0, i as int));
    }
    assert(r@ =~= v@);
    r
}

/// The ownership conditions recorded in a struct description.
pub open spec fn ownership_of(d: StructDescription) -> Ownership {
    Ownership {
        address_owned: d.address_owned,
        object_owned: d.object_owned,
        wrapped: d.wrapped,
        shared: d.shared,
        immutable: d.immutable,
        event: d.event,
    }
}

/// A round's conversation after its prompt was answered with `t`.
pub open spec fn answered(conv: Seq<(Role, Seq<char>)>, prompt: Seq<char>, t: Seq<char>) -> Seq<
    (Role, Seq<char>),
> {
    conv.push((Role::User, prompt)).push((Role::Assistant, t))
}

impl ModuleRounds {
    /// Nothing but the round's position changed between `a` and `b`.
    pub open spec fn same_setup(a: &ModuleRounds, b: &ModuleRounds) -> bool {
        &&& b.prompts == a.prompts
        &&& b.target == a.target
        &&& b.network == a.network
        &&& b.base == a.base
        &&& b.struct_names == a.struct_names
    }

    /// `b` is `a` after a reply that could not be read: the same round is
    /// asked again, or, once its replies run out, the rounds fail.
    pub open spec fn retried(a: &ModuleRounds, b: &ModuleRounds) -> bool {
        &&& *b == (ModuleRounds { stage: b.stage, attempts: b.attempts, ..*a })
        &&& if a.attempts + 1 < MAX_ATTEMPTS {
            b.stage == a.stage && b.attempts == a.attempts + 1
        } else {
            b.stage == Stage::Failed(exhausted_error(a.stage))
        }
    }

    /// Between `a` and `b` only the round's position, its conversation and
    /// `field` changed: the stage, the attempts, the struct in progress and
    /// the structs described so far are then free in `b`, and every recorded
    /// answer but the one named is kept.
    pub open spec fn keeps_answers(a: &ModuleRounds, b: &ModuleRounds, field: int) -> bool {
        &&& field != 0 ==> b.description == a.description
        &&& field != 1 ==> b.warnings == a.warnings
        &&& field != 2 ==> b.security_level == a.security_level
        &&& field != 3 ==> b.struct_description == a.struct_description
        &&& field != 4 ==> b.struct_warnings == a.struct_warnings
        &&& field != 5 ==> b.structs == a.structs && b.current == a.current
        &&& Self::same_setup(a, b)
    }

    /// `b` has moved on from `a`'s round, which was answered with `t`.
    pub open spec fn moved_on(a: &ModuleRounds, b: &ModuleRounds, t: Seq<char>) -> bool {
        &&& b.attempts == 0
        &&& conversation_view(b.conversation@) == answered(
            conversation_view(a.conversation@),
            a.stage_prompt(),
            t,
        )
    }

    /// `b` starts the rounds of struct `i`, or is done when there is none.
    pub open spec fn next_struct(a: &ModuleRounds, b: &ModuleRounds, i: nat) -> bool {
        &&& b.attempts == 0
        &&& b.current == i
        &&& if i < a.struct_names@.len() {
            b.stage == Stage::StructDescription && b.conversation@ == a.base@
        } else {
            b.stage == Stage::Done
        }
    }

    fn retry(&mut self)
        requires
            old(self).wf(),
            active(old(self).stage),
        ensures
            final(self).wf(),
            Self::same_setup(&*old(self), &*final(self)),
            Self::retried(&*old(self), &*final(self)),
            final(self).description == old(self).description,
            final(self).warnings == old(self).warnings,
            final(self).security_level == old(self).security_level,
            final(self).struct_description == old(self).struct_description,
            final(self).struct_warnings == old(self).struct_warnings,
    {
        if self.attempts + 1 < MAX_ATTEMPTS {
            self.attempts = self.attempts + 1;
        } else {
            let e = match self.stage {
                Stage::ModuleDescription | Stage::StructDescription => DescribeError::DescriptionGeneration,
                _ => DescribeError::Parse,
            };
            self.stage = Stage::Failed(e);
        }
    }

    fn answer(&mut self, t: String)
        requires
            old(self).wf(),
            active(old(self).stage),
        ensures
            conversation_view(final(self).conversation@) == answered(
                conversation_view(old(self).conversation@),
                old(self).stage_prompt(),
                t@,
            ),
            *final(self) == (ModuleRounds {
                conversation: final(self).conversation,
                attempts: 0,
                ..*old(self)
            }),
    {
        let p = self.prompt();
        self.attempts = 0;
        let ghost c0 = self.conversation@;
        self.conversation.push(Message { role: Role::User, content: p });
        self.conversation.push(Message { role: Role::Assistant, content: t });
        assert(conversation_view(self.conversation@) =~= answered(
            conversation_view(c0),
            old(self).stage_prompt(),
            t@,
        ));
    }

    fn start_struct(&mut self, i: usize)
        requires
            i <= old(self).struct_names@.len(),
            old(self).structs@.len() == i,
            old(self).structs_ok(),
        ensures
            Self::next_struct(&*old(self), &*final(self), i as nat),
            *final(self) == (ModuleRounds {
                conversation: final(self).conversation,
                stage: final(self).stage,
                attempts: 0,
                current: i,
                ..*old(self)
            }),
            final(self).wf(),
    {
        self.attempts = 0;
        self.current = i;
        if i < self.struct_names.len() {
            self.conversation = copy_conversation(&self.base);
            self.stage = Stage::StructDescription;
        } else {
            self.stage = Stage::Done;
        }
    }

    /// Takes in the model's reply to the pending request: its text, or
    /// nothing when the reply held no text.
    pub fn receive(&mut self, reply: Option<String>)
        requires
            old(self).wf(),
        ensures
            final(self).wf(),
            Self::same_setup(&*old(self), &*final(self)),
            !active(old(self).stage) ==> *final(self) == *old(self),
            active(old(self).stage) ==> match reply {
                None => Self::retried(&*old(self), &*final(self)),
                Some(t) => match old(self).stage {
                    Stage::ModuleDescription => match without_reasoning(t@) {
                        Some(d) => final(self).description@ == d && final(self).stage
                            == Stage::ModuleWarnings && Self::moved_on(&*old(self), &*final(self), t@)
                            && Self::keeps_answers(&*old(self), &*final(self), 0),
                        None => Self::retried(&*old(self), &*final(self)),
                    },
                    Stage::ModuleWarnings => match warnings_reply(t@) {
                        Ok(v) => strings_view(final(self).warnings@) == v && final(self).stage
                            == Stage::ModuleLevel && Self::moved_on(&*old(self), &*final(self), t@)
                            && Self::keeps_answers(&*old(self), &*final(self), 1),
                        Err(_) => Self::retried(&*old(self), &*final(self)),
                    },
                    Stage::ModuleLevel => match level_reply(t@) {
                        Ok(l) => final(self).security_level == l && Self::keeps_answers(
                            &*old(self),
                            &*final(self),
                            2,
                        ) && Self::next_struct(&*old(self), &*final(self), 0),
                        Err(ReplyError::NoKeyword) => *final(self) == (ModuleRounds {
                            stage: Stage::Failed(DescribeError::Classification),
                            ..*old(self)
                        }),
                        Err(_) => Self::retried(&*old(self), &*final(self)),
                    },
                    Stage::StructDescription => match without_reasoning(t@) {
                        Some(d) => final(self).struct_description@ == d && final(self).stage
                            == Stage::StructWarnings && Self::keeps_answers(&*old(self), &*final(self), 3)
                            && Self::moved_on(&*old(self), &*final(self), t@),
                        None => Self::retried(&*old(self), &*final(self)),
                    },
                    Stage::StructWarnings => match warnings_reply(t@) {
                        Ok(v) => strings_view(final(self).struct_warnings@) == v && final(self).stage
                            == Stage::StructOwnership && Self::keeps_answers(&*old(self), &*final(self), 4)
                            && final(self).attempts == 0 && final(self).conversation@
                            == old(self).base@,
                        Err(_) => Self::retried(&*old(self), &*final(self)),
                    },
                    _ => match without_reasoning(t@) {
                        Some(u) => match json_nullable_string_object(u) {
                            Some(fields) => {
                                let d = final(self).structs@.last();
                                &&& final(self).structs@.drop_last() == old(self).structs@
                                &&& d.module == old(self).target
                                &&& d.network == old(self).network
                                &&& d.struct_name == old(self).struct_names@[old(
                                    self,
                                ).current as int]
                                &&& d.description == old(self).struct_description
                                &&& d.warnings@ == old(self).struct_warnings@
                                &&& ownership_matches(ownership_of(d), fields)
                                &&& Self::keeps_answers(&*old(self), &*final(self), 5)
                                &&& Self::next_struct(
                                    &*old(self),
                                    &*final(self),
                                    (old(self).current + 1) as nat,
                                )
                            },
                            None => Self::retried(&*old(self), &*final(self)),
                        },
                        None => Self::retried(&*old(self), &*final(self)),
                    },
                },
            },
    {
        if !matches!(self.stage, Stage::ModuleDescription | Stage::ModuleWarnings | Stage::ModuleLevel | Stage::StructDescription | Stage::StructWarnings | Stage::StructOwnership) {
            return;
        }
        let t = match reply {
            Some(t) => t,
            None => {
                self.retry();
                return;
            },
        };
        match self.stage {
            Stage::ModuleDescription => match strip_reasoning(t.as_str()) {
                Ok(d) => {
                    self.answer(t);
                    self.description = d;
                    self.stage = Stage::ModuleWarnings;
                },
                Err(_) => self.retry(),
            },
            Stage::ModuleWarnings => match parse_string_list(t.as_str()) {
                Ok(v) => {
                    self.answer(t);
                    self.warnings = v;
                    self.stage = Stage::ModuleLevel;
                },
                Err(_) => self.retry(),
            },
            Stage::ModuleLevel => match parse_security_level(t.as_str()) {
                Ok(l) => {
                    self.answer(t);
                    self.security_level = l;
                    self.start_struct(0);
                },
                Err(ReplyError::NoKeyword) => {
                    self.stage = Stage::Failed(DescribeError::Classification);
                },
                Err(_) => self.retry(),
            },
            Stage::StructDescription => match strip_reasoning(t.as_str()) {
                Ok(d) => {
                    self.answer(t);
                    self.struct_description = d;
                    self.stage = Stage::StructWarnings;
                },
                Err(_) => self.retry(),
            },
            Stage::StructWarnings => match parse_string_list(t.as_str()) {
                Ok(v) => {
                    self.struct_warnings = v;
                    self.attempts = 0;
                    self.conversation = copy_conversation(&self.base);
                    self.stage = Stage::StructOwnership;
                },
                Err(_) => self.retry(),
            },
            _ => match parse_ownership(t.as_str()) {
                Ok(o) => {
                    let i = self.current;
                    let n = self.struct_names.len();
                    assert(i < n);
                    let d = StructDescription {
                        module: self.target.clone(),
                        network: self.network.clone(),
                        struct_name: self.struct_names[i].clone(),
                        description: self.struct_description.clone(),
                        address_owned: o.address_owned,
                        object_owned: o.object_owned,
                        wrapped: o.wrapped,
                        shared: o.shared,
                        immutable: o.immutable,
                        event: o.event,
                        warnings: copy_strings(&self.struct_warnings),
                    };
                    self.structs.push(d);
                    assert(self.structs@.drop_last() =~= old(self).structs@);
                    assert forall|j: int| 0 <= j < self.structs@.len() implies (#[trigger] self.structs@[j]).module
                        == self.target && self.structs@[j].network == self.network
                        && self.structs@[j].struct_name == self.struct_names@[j] by {
                        if j < i {
                            assert(self.structs@[j] == old(self).structs@[j]);
                        }
                    }
                    self.start_struct(i + 1);
                },
                Err(_) => self.retry(),
            },
        }
    }

    /// The module's aggregate once every round is done, the error once one
    /// failed, nothing while rounds remain.
    pub fn outcome(self) -> (r: Option<Result<FullModuleDescription, DescribeError>>)
        requires
            self.wf(),
        ensures
            match self.stage {
                Stage::Done => r matches Some(Ok(f)) && f.module.id == self.target && f.module.network
                    == self.network && f.module.description == self.description
                    && f.module.security_level == self.security_level && f.module.warnings
                    == self.warnings && f.structs == self.structs && f.functions@.len() == 0
                    && (self.distinct_names() ==> f.consistent()),
                Stage::Failed(e) => r == Some(Err::<FullModuleDescription, DescribeError>(e)),
                _ => r is None,
            },
    {
        match self.stage {
            Stage::Done => Some(
                Ok(
                    FullModuleDescription {
                        module: ModuleDescription {
                            id: self.target,
                            network: self.network,
                            description: self.description,
                            security_level: self.security_level,
                            warnings: self.warnings,
                        },
                        structs: self.structs,
                        functions: Vec::new(),
                    },
                ),
            ),
            Stage::Failed(e) => Some(Err(e)),
            _ => None,
        }
    }
}

} // verus!
