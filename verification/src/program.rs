//! The record of one discovered program: what is shown of it, the command
//! that starts it, and its further actions.

use vstd::prelude::*;
use crate::category::{keep_label, label_or_default};
use crate::command::{command_model, launch_command, launch_line, launch_of, sanitized, shell_words_of};
use crate::command::{ActivationError, LaunchCommand};
use crate::ranking::{normalize, normalized, rank_chars, ranking};
use crate::text::chars_of;

verus! {

/// What an action is: its name and its raw launch command.
pub struct ActionModel {
    pub name: Seq<char>,
    pub command: Seq<char>,
}

/// What a program record holds.
pub struct ProgramModel {
    pub name: Seq<char>,
    pub category: Seq<char>,
    pub description: Seq<char>,
    pub icon: Option<Seq<char>>,
    pub version: Option<Seq<char>>,
    pub command: Seq<char>,
    pub actions: Option<Seq<ActionModel>>,
}

/// A named further launch command of a program.
#[derive(Debug)]
pub struct Action {
    pub name: String,
    pub command: String,
}

impl View for Action {
    type V = ActionModel;

    open spec fn view(&self) -> ActionModel {
        ActionModel { name: self.name@, command: self.command@ }
    }
}

impl Clone for Action {
    fn clone(&self) -> (r: Self)
        ensures
            r@ == self@,
    {
        Action { name: self.name.clone(), command: self.command.clone() }
    }
}

/// The models of a list of actions, in order.
pub open spec fn action_models(v: Seq<Action>) -> Seq<ActionModel> {
    Seq::new(v.len(), |i: int| v[i]@)
}

/// The actions of a record made from the given list: none where the list is
/// absent or empty.
pub open spec fn kept_actions(actions: Option<Vec<Action>>) -> Option<Seq<ActionModel>> {
    match actions {
        Some(v) => if v@.len() == 0 {
            None
        } else {
            Some(action_models(v@))
        },
        None => None,
    }
}

/// The characters of a string that may be absent.
pub open spec fn text_of(s: Option<&str>) -> Option<Seq<char>> {
    match s {
        Some(t) => Some(t@),
        None => None,
    }
}

impl Action {
    /// The command that starts this action: its launch command cleaned of
    /// placeholders and cut into words.
    pub fn launch(&self) -> (r: Result<LaunchCommand, ActivationError>)
        ensures
            command_model(r) == launch_of(shell_words_of(sanitized(self.command@))),
    {
        launch_command(self.command.as_str())
    }
}

/// One discovered program. Its category label is never empty, its launch
/// command is kept cleaned of placeholders, and its actions, where it has
/// any, are at least one.
#[derive(Debug)]
pub struct ProgramResult {
    name: String,
    category: String,
    description: String,
    icon: Option<String>,
    version: Option<String>,
    command: String,
    actions: Option<Vec<Action>>,
}

impl View for ProgramResult {
    type V = ProgramModel;

    closed spec fn view(&self) -> ProgramModel {
        ProgramModel {
            name: self.name@,
            category: self.category@,
            description: self.description@,
            icon: match self.icon {
                Some(s) => Some(s@),
                None => None,
            },
            version: match self.version {
                Some(s) => Some(s@),
                None => None,
            },
            command: self.command@,
            actions: match self.actions {
                Some(v) => Some(action_models(v@)),
                None => None,
            },
        }
    }
}

impl Clone for ProgramResult {
    fn clone(&self) -> (r: Self)
        ensures
            r@ == self@,
    {
        proof {
            use_type_invariant(self);
        }
        let actions = match &self.actions {
            Some(v) => {
                let w = v.clone();
                assert(action_models(w@) == action_models(v@));
                Some(w)
            },
            None => None,
        };
        let icon = match &self.icon {
            Some(s) => Some(s.clone()),
            None => None,
        };
        let version = match &self.version {
            Some(s) => Some(s.clone()),
            None => None,
        };
        ProgramResult {
            name: self.name.clone(),
            category: self.category.clone(),
            description: self.description.clone(),
            icon,
            version,
            command: self.command.clone(),
            actions,
        }
    }
}

impl ProgramResult {
    #[verifier::type_invariant]
    spec fn is_well_formed(self) -> bool {
        &&& self.category@.len() > 0
        &&& match self.actions {
            Some(v) => v@.len() > 0,
            None => true,
        }
    }

    /// Makes the record of a program. The launch command is cleaned of its
    /// placeholders; an empty list of actions is kept as no actions, and an
    /// empty category as `APPLICATION`.
    pub fn new(
        name: &str,
        description: &str,
        category: &str,
        version: Option<&str>,
        exec: &str,
        icon: Option<&str>,
        actions: Option<Vec<Action>>,
    ) -> (p: ProgramResult)
        ensures
            p@ == (ProgramModel {
                name: name@,
                category: label_or_default(category@),
                description: description@,
                icon: text_of(icon),
                version: text_of(version),
                command: sanitized(exec@),
                actions: kept_actions(actions),
            }),
    {
        let kept: Option<Vec<Action>> = match actions {
            Some(v) => {
                if v.len() == 0 {
                    None
                } else {
                    Some(v)
                }
            },
            None => None,
        };
        assert(match kept {
            Some(v) => v@.len() > 0,
            None => true,
        });
        let icon = match icon {
            Some(s) => Some(s.to_owned()),
            None => None,
        };
        let version = match version {
            Some(s) => Some(s.to_owned()),
            None => None,
        };
        ProgramResult {
            name: name.to_owned(),
            category: keep_label(category.to_owned()),
            description: description.to_owned(),
            icon,
            version,
            command: ProgramResult::format_exec(exec),
            actions: kept,
        }
    }

    /// The name shown for the program.
    pub fn name(&self) -> (r: &str)
        ensures
            r@ == self@.name,
    {
        self.name.as_str()
    }

    /// The category label shown for the program. It is never empty.
    pub fn category(&self) -> (r: &str)
        ensures
            r@ == self@.category,
            r@.len() > 0,
    {
        proof {
            use_type_invariant(self);
        }
        self.category.as_str()
    }

    /// The description of the program; it may be empty.
    pub fn description(&self) -> (r: &str)
        ensures
            r@ == self@.description,
    {
        self.description.as_str()
    }

    /// The identifier of the program's icon, where it has one.
    pub fn icon(&self) -> (r: Option<&str>)
        ensures
            text_of(r) == self@.icon,
    {
        match &self.icon {
            Some(s) => Some(s.as_str()),
            None => None,
        }
    }

    /// The version of the program, where it states one.
    pub fn version(&self) -> (r: Option<&str>)
        ensures
            text_of(r) == self@.version,
    {
        match &self.version {
            Some(s) => Some(s.as_str()),
            None => None,
        }
    }

    /// The cleaned launch command of the program.
    pub fn command(&self) -> (r: &str)
        ensures
            r@ == self@.command,
    {
        self.command.as_str()
    }

    /// The actions of the program, where it has any: at least one.
    pub fn actions(&self) -> (r: Option<&Vec<Action>>)
        ensures
            match r {
                Some(v) => v@.len() > 0 && self@.actions == Some(action_models(v@)),
                None => self@.actions is None,
            },
    {
        proof {
            use_type_invariant(self);
        }
        match &self.actions {
            Some(v) => Some(v),
            None => None,
        }
    }

    /// Ranks the program against a query: its name is put in lowercase and
    /// cleared of whitespace, the query is taken as it stands.
    pub fn get_ranking(&self, query: &str) -> (score: usize)
        requires
            10 * query@.len() <= usize::MAX,
        ensures
            score == ranking(normalized(self@.name), query@),
            score <= 10 * query@.len(),
    {
        let name = normalize(self.name.as_str());
        let q = chars_of(query);
        rank_chars(&name, &q)
    }

    /// Ranks the program against a query of any length: `None` where the
    /// query is so long that its score might not fit, and the ranking
    /// otherwise.
    pub fn try_ranking(&self, query: &str) -> (r: Option<usize>)
        ensures
            match r {
                Some(score) => 10 * query@.len() <= usize::MAX && score == ranking(
                    normalized(self@.name),
                    query@,
                ),
                None => 10 * query@.len() > usize::MAX,
            },
    {
        if query.unicode_len() > usize::MAX / 10 {
            None
        } else {
            Some(self.get_ranking(query))
        }
    }

    /// The command that starts the program: its cleaned launch command cut
    /// into words.
    pub fn launch(&self) -> (r: Result<LaunchCommand, ActivationError>)
        ensures
            command_model(r) == launch_of(shell_words_of(self@.command)),
    {
        launch_line(self.command.as_str())
    }
}

/// The ranking of a record depends on its name and on the query alone: two
/// records of one name rank alike against one query, whatever else they
/// hold. It is never more than ten points for each character of the query.
pub proof fn lemma_ranking_by_name_alone(a: ProgramResult, b: ProgramResult, query: Seq<char>)
    requires
        a@.name == b@.name,
    ensures
        ranking(normalized(a@.name), query) == ranking(normalized(b@.name), query),
        ranking(normalized(a@.name), query) <= 10 * query.len(),
{
    crate::ranking::lemma_ranking_bounded(normalized(a@.name), query);
}

} // verus!
