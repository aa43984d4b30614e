//! Entry files: the attributes that are read from one, and the program
//! record, if any, that they make.

use vstd::prelude::*;
use vstd::string::StringExecFns;
use freedesktop_entry_parser::{Entry, ParseError};
use crate::category::{
    chosen_token,
    lemma_label_or_default,
    lemma_shown_label_not_empty,
    list_chars,
    plain_label,
    shown_label,
};
use crate::command::sanitized;
use crate::program::{action_models, Action, ActionModel, ProgramModel, ProgramResult};
use crate::text::{chars_of, rows, split_chars, split_on, str_eq, string_from_chars, texts};

verus! {

#[verifier::external_type_specification]
#[verifier::external_body]
pub struct ExEntry(Entry);

#[verifier::external_type_specification]
#[verifier::external_body]
pub struct ExEntryParseError(ParseError);

/// The plain attributes of a parsed entry file: the value that each section
/// and attribute name lead to. Values given for a locale are not in it.
pub uninterp spec fn entry_attrs(entry: Entry) -> Map<(Seq<char>, Seq<char>), Seq<char>>;

/// The plain attributes that `Entry::parse` reads from the bytes of a file,
/// `None` where it refuses them.
pub uninterp spec fn parsed_attrs(bytes: Seq<u8>) -> Option<Map<(Seq<char>, Seq<char>), Seq<char>>>;

/// Trusted: `freedesktop_entry_parser::Entry::parse` on the bytes of a file.
/// Whether it succeeds and what the entry then holds depend on the bytes
/// alone.
#[verifier::external_body]
pub(crate) fn parse_bytes(bytes: Vec<u8>) -> (r: Result<Entry, ParseError>)
    ensures
        match r {
            Ok(entry) => parsed_attrs(bytes@) == Some(entry_attrs(entry)),
            Err(_) => parsed_attrs(bytes@) is None,
        },
{
    Entry::parse(bytes)
}

/// Trusted: `Entry::section` followed by `AttrSelector::attr`, which look a
/// section and an attribute up by their exact names and give the attribute's
/// plain value, or nothing where the section, the attribute or such a value
/// is missing.
#[verifier::external_body]
pub(crate) fn entry_attr(entry: &Entry, section: &str, name: &str) -> (r: Option<String>)
    ensures
        match r {
            Some(value) => attr_of(entry_attrs(*entry), section@, name@) == Some(value@),
            None => attr_of(entry_attrs(*entry), section@, name@) is None,
        },
{
    entry.section(section).attr(name).map(str::to_owned)
}

/// The value of an attribute of a section, where there is one.
pub open spec fn attr_of(
    attrs: Map<(Seq<char>, Seq<char>), Seq<char>>,
    section: Seq<char>,
    name: Seq<char>,
) -> Option<Seq<char>> {
    if attrs.contains_key((section, name)) {
        Some(attrs[(section, name)])
    } else {
        None
    }
}

/// What is read of one action: its name and its launch command, each as far
/// as the file gives it.
pub struct ActionFieldsModel {
    pub name: Option<Seq<char>>,
    pub command: Option<Seq<char>>,
}

/// What is read of one entry file.
pub struct FieldsModel {
    pub no_display: Option<Seq<char>>,
    pub hidden: Option<Seq<char>>,
    pub actions: Seq<ActionFieldsModel>,
    pub command: Option<Seq<char>>,
    pub name: Option<Seq<char>>,
    pub comment: Option<Seq<char>>,
    pub categories: Option<Seq<char>>,
    pub version: Option<Seq<char>>,
    pub icon: Option<Seq<char>>,
}

/// The characters of a string that may be absent.
pub open spec fn opt_text(s: Option<String>) -> Option<Seq<char>> {
    match s {
        Some(t) => Some(t@),
        None => None,
    }
}

/// The attributes read of one action of an entry file.
#[derive(Debug, Clone)]
pub struct ActionFields {
    pub name: Option<String>,
    pub command: Option<String>,
}

impl View for ActionFields {
    type V = ActionFieldsModel;

    open spec fn view(&self) -> ActionFieldsModel {
        ActionFieldsModel { name: opt_text(self.name), command: opt_text(self.command) }
    }
}

/// The attributes read of one entry file, each as far as the file gives it.
#[derive(Debug, Clone)]
pub struct EntryFields {
    pub no_display: Option<String>,
    pub hidden: Option<String>,
    pub actions: Vec<ActionFields>,
    pub command: Option<String>,
    pub name: Option<String>,
    pub comment: Option<String>,
    pub categories: Option<String>,
    pub version: Option<String>,
    pub icon: Option<String>,
}

impl View for EntryFields {
    type V = FieldsModel;

    open spec fn view(&self) -> FieldsModel {
        FieldsModel {
            no_display: opt_text(self.no_display),
            hidden: opt_text(self.hidden),
            actions: Seq::new(self.actions@.len(), |i: int| self.actions@[i]@),
            command: opt_text(self.command),
            name: opt_text(self.name),
            comment: opt_text(self.comment),
            categories: opt_text(self.categories),
            version: opt_text(self.version),
            icon: opt_text(self.icon),
        }
    }
}

/// The pieces of a list that are not empty, in order.
pub open spec fn nonempty(pieces: Seq<Seq<char>>) -> Seq<Seq<char>>
    decreases pieces.len(),
{
    if pieces.len() == 0 {
        Seq::<Seq<char>>::empty()
    } else if pieces.last().len() > 0 {
        nonempty(pieces.drop_last()).push(pieces.last())
    } else {
        nonempty(pieces.drop_last())
    }
}

/// The identifiers of the actions that an entry lists, separated by `;`.
pub open spec fn action_ids(listed: Option<Seq<char>>) -> Seq<Seq<char>> {
    match listed {
        Some(s) => nonempty(split_on(s, ';')),
        None => Seq::<Seq<char>>::empty(),
    }
}

/// The name of the section that describes the action with the identifier.
pub open spec fn action_section(id: Seq<char>) -> Seq<char> {
    "Desktop Action "@ + id
}

/// What the attributes hold of the action with the identifier.
pub open spec fn action_fields_of(
    attrs: Map<(Seq<char>, Seq<char>), Seq<char>>,
    id: Seq<char>,
) -> ActionFieldsModel {
    ActionFieldsModel {
        name: attr_of(attrs, action_section(id), "Name"@),
        command: attr_of(attrs, action_section(id), "Exec"@),
    }
}

/// What is read of an entry file with the given attributes.
pub open spec fn fields_of(attrs: Map<(Seq<char>, Seq<char>), Seq<char>>) -> FieldsModel {
    let ids = action_ids(attr_of(attrs, "Desktop Entry"@, "Actions"@));
    FieldsModel {
        no_display: attr_of(attrs, "Desktop Entry"@, "NoDisplay"@),
        hidden: attr_of(attrs, "Desktop Entry"@, "Hidden"@),
        actions: Seq::new(ids.len(), |i: int| action_fields_of(attrs, ids[i])),
        command: attr_of(attrs, "Desktop Entry"@, "Exec"@),
        name: attr_of(attrs, "Desktop Entry"@, "Name"@),
        comment: attr_of(attrs, "Desktop Entry"@, "Comment"@),
        categories: attr_of(attrs, "Desktop Entry"@, "Categories"@),
        version: attr_of(attrs, "Desktop Entry"@, "Version"@),
        icon: attr_of(attrs, "Desktop Entry"@, "Icon"@),
    }
}

/// Why an entry file gives no program record though it might have.
#[derive(Debug, Clone, Copy, PartialEq, Eq, Structural)]
pub enum EntryError {
    /// The file is no well-formed entry file.
    Malformed,
    /// An action that the entry lists has no launch command.
    ActionWithoutExec,
}

/// A text, or the default where it is absent.
pub open spec fn text_or(s: Option<Seq<char>>, default: Seq<char>) -> Seq<char> {
    match s {
        Some(t) => t,
        None => default,
    }
}

/// Whether an entry asks to be shown: neither of its two flags is anything
/// but `false`.
pub open spec fn shown(f: FieldsModel) -> bool {
    text_or(f.no_display, "false"@) == "false"@ && text_or(f.hidden, "false"@) == "false"@
}

/// Whether every listed action has a launch command.
pub open spec fn actions_complete(f: FieldsModel) -> bool {
    forall|i: int| 0 <= i < f.actions.len() ==> (#[trigger] f.actions[i]).command is Some
}

/// The action made of what was read of it.
pub open spec fn action_of(a: ActionFieldsModel) -> ActionModel {
    ActionModel { name: text_or(a.name, "Unnamed Action"@), command: a.command->0 }
}

/// The program record that the fields of an entry make: an error where a
/// listed action has no launch command; nothing where the entry has no launch
/// command or is not to be shown; else the record.
pub open spec fn outcome(f: FieldsModel) -> Result<Option<ProgramModel>, EntryError> {
    if !actions_complete(f) {
        Err(EntryError::ActionWithoutExec)
    } else if f.command is None || !shown(f) {
        Ok(None)
    } else {
        Ok(
            Some(
                ProgramModel {
                    name: text_or(f.name, "Unnamed Application"@),
                    category: shown_label(
                        chosen_token(text_or(f.categories, Seq::<char>::empty())),
                    ),
                    description: text_or(f.comment, ""@),
                    icon: f.icon,
                    version: f.version,
                    command: sanitized(f.command->0),
                    actions: if f.actions.len() == 0 {
                        None
                    } else {
                        Some(Seq::new(f.actions.len(), |i: int| action_of(f.actions[i])))
                    },
                },
            ),
        )
    }
}

/// An entry that is shown, has a launch command and lists no action without
/// one makes a record.
pub proof fn lemma_shown_entry_makes_record(f: FieldsModel)
    requires
        shown(f),
        f.command is Some,
        actions_complete(f),
    ensures
        outcome(f) matches Ok(Some(_)),
{
}

/// An entry that is hidden, or that has no launch command, makes no record.
pub proof fn lemma_hidden_or_without_command(f: FieldsModel)
    requires
        !shown(f) || f.command is None,
    ensures
        !(outcome(f) matches Ok(Some(_))),
{
}

/// An entry that lists an action without a launch command is an error,
/// whatever else it holds.
pub proof fn lemma_incomplete_action(f: FieldsModel, i: int)
    requires
        0 <= i < f.actions.len(),
        f.actions[i].command is None,
    ensures
        outcome(f) == Err::<Option<ProgramModel>, EntryError>(EntryError::ActionWithoutExec),
{
}

/// The record that an entry makes holds the label chosen from its
/// categories, which is not empty, its launch command cleaned of
/// placeholders, and either no actions or one for each action listed, in
/// order and at least one, each with the launch command that the entry
/// gives it.
pub proof fn lemma_record_of_entry(f: FieldsModel)
    requires
        outcome(f) matches Ok(Some(_)),
    ensures
        f.command is Some,
        outcome(f)->Ok_0->0.category == shown_label(
            chosen_token(text_or(f.categories, Seq::<char>::empty())),
        ),
        outcome(f)->Ok_0->0.category.len() > 0,
        outcome(f)->Ok_0->0.command == sanitized(f.command->0),
        match outcome(f)->Ok_0->0.actions {
            Some(actions) => {
                &&& actions.len() == f.actions.len()
                &&& actions.len() > 0
                &&& forall|i: int|
                    0 <= i < actions.len() ==> f.actions[i].command == Some(
                        (#[trigger] actions[i]).command,
                    )
            },
            None => f.actions.len() == 0,
        },
{
    lemma_shown_label_not_empty(chosen_token(text_or(f.categories, Seq::<char>::empty())));
}

/// What a result holds, records taken by their models.
pub open spec fn models(r: Result<Option<ProgramResult>, EntryError>) -> Result<
    Option<ProgramModel>,
    EntryError,
> {
    match r {
        Ok(Some(p)) => Ok(Some(p@)),
        Ok(None) => Ok(None),
        Err(e) => Err(e),
    }
}

/// A copy of the text, or of the default where the text is absent.
fn owned_or(s: &Option<String>, default: &str) -> (r: String)
    ensures
        r@ == text_or(opt_text(*s), default@),
{
    match s {
        Some(t) => t.clone(),
        None => default.to_owned(),
    }
}

/// The text as a slice, where there is one.
fn borrowed(s: &Option<String>) -> (r: Option<&str>)
    ensures
        crate::program::text_of(r) == opt_text(*s),
        list_chars(r) == text_or(opt_text(*s), Seq::<char>::empty()),
{
    match s {
        Some(t) => Some(t.as_str()),
        None => None,
    }
}

/// Makes the actions of an entry from what was read of them: `None` where
/// one of them has no launch command.
pub fn build_actions(fields: &Vec<ActionFields>) -> (r: Option<Vec<Action>>)
    ensures
        match r {
            Some(v) => {
                &&& forall|i: int|
                    0 <= i < fields@.len() ==> (#[trigger] fields@[i]).command is Some
                &&& action_models(v@) == Seq::new(
                    fields@.len(),
                    |i: int| action_of(fields@[i]@),
                )
            },
            None => exists|i: int|
                0 <= i < fields@.len() && (#[trigger] fields@[i]).command is None,
        },
{
    let mut out: Vec<Action> = Vec::new();
    let mut i: usize = 0;
    while i < fields.len()
        invariant
            i <= fields@.len(),
            out@.len() == i,
            forall|j: int| 0 <= j < i ==> (#[trigger] fields@[j]).command is Some,
            forall|j: int| 0 <= j < i ==> (#[trigger] out@[j])@ == action_of(fields@[j]@),
        decreases fields@.len() - i,
    {
        match &fields[i].command {
            Some(command) => {
                let name = owned_or(&fields[i].name, "Unnamed Action");
                out.push(Action { name, command: command.clone() });
            },
            None => {
                return None;
            },
        }
        i += 1;
    }
    assert(action_models(out@) == Seq::new(fields@.len(), |i: int| action_of(fields@[i]@)));
    Some(out)
}

/// Makes the program record of an entry from what was read of it.
pub fn program_from_fields(fields: &EntryFields) -> (r: Result<Option<ProgramResult>, EntryError>)
    ensures
        models(r) == outcome(fields@),
{
    let actions = match build_actions(&fields.actions) {
        Some(v) => v,
        None => {
            proof {
                let i = choose|i: int|
                    0 <= i < fields.actions@.len() && (#[trigger] fields.actions@[i]).command
                        is None;
                assert(fields@.actions[i].command is None);
            }
            return Err(EntryError::ActionWithoutExec);
        },
    };
    assert(actions_complete(fields@));
    let command = match &fields.command {
        Some(c) => c,
        None => {
            return Ok(None);
        },
    };
    let no_display = owned_or(&fields.no_display, "false");
    let hidden = owned_or(&fields.hidden, "false");
    if !(str_eq(no_display.as_str(), "false") && str_eq(hidden.as_str(), "false")) {
        return Ok(None);
    }
    let category = ProgramResult::choose_category(borrowed(&fields.categories));
    let name = owned_or(&fields.name, "Unnamed Application");
    let description = owned_or(&fields.comment, "");
    let p = ProgramResult::new(
        name.as_str(),
        description.as_str(),
        category.as_str(),
        borrowed(&fields.version),
        command.as_str(),
        borrowed(&fields.icon),
        Some(actions),
    );
    proof {
        let f = fields@;
        lemma_label_or_default(
            plain_label(chosen_token(text_or(f.categories, Seq::<char>::empty()))),
        );
        if f.actions.len() > 0 {
            assert(action_models(actions@) == Seq::new(
                f.actions.len(),
                |i: int| action_of(f.actions[i]),
            ));
        }
    }
    Ok(Some(p))
}

/// Cuts the list of action identifiers of an entry into its identifiers.
pub fn list_action_ids(listed: &Option<String>) -> (ids: Vec<String>)
    ensures
        texts(ids@) == action_ids(opt_text(*listed)),
{
    let mut ids: Vec<String> = Vec::new();
    match listed {
        Some(s) => {
            let chars = chars_of(s.as_str());
            let pieces = split_chars(&chars, ';');
            let mut i: usize = 0;
            while i < pieces.len()
                invariant
                    i <= pieces@.len(),
                    texts(ids@) == nonempty(rows(pieces@).take(i as int)),
                decreases pieces@.len() - i,
            {
                let ghost before = texts(ids@);
                proof {
                    assert(rows(pieces@).take(i + 1).drop_last() == rows(pieces@).take(i as int));
                }
                if pieces[i].len() > 0 {
                    ids.push(string_from_chars(&pieces[i]));
                    assert(texts(ids@) == before.push(pieces@[i as int]@));
                }
                i += 1;
            }
            proof {
                assert(rows(pieces@).take(pieces@.len() as int) == rows(pieces@));
            }
        },
        None => {
            assert(texts(ids@) == Seq::<Seq<char>>::empty());
        },
    }
    ids
}

/// Reads from a parsed entry file the attributes that make a program record.
pub fn read_fields(entry: &Entry) -> (fields: EntryFields)
    ensures
        fields@ == fields_of(entry_attrs(*entry)),
{
    let listed = entry_attr(entry, "Desktop Entry", "Actions");
    let ids = list_action_ids(&listed);
    let mut actions: Vec<ActionFields> = Vec::new();
    let mut i: usize = 0;
    while i < ids.len()
        invariant
            i <= ids@.len(),
            actions@.len() == i,
            forall|j: int|
                0 <= j < i ==> (#[trigger] actions@[j])@ == action_fields_of(
                    entry_attrs(*entry),
                    ids@[j]@,
                ),
        decreases ids@.len() - i,
    {
        let mut section = "Desktop Action ".to_owned();
        section.append(ids[i].as_str());
        let name = entry_attr(entry, section.as_str(), "Name");
        let command = entry_attr(entry, section.as_str(), "Exec");
        actions.push(ActionFields { name, command });
        i += 1;
    }
    let fields = EntryFields {
        no_display: entry_attr(entry, "Desktop Entry", "NoDisplay"),
        hidden: entry_attr(entry, "Desktop Entry", "Hidden"),
        actions,
        command: entry_attr(entry, "Desktop Entry", "Exec"),
        name: entry_attr(entry, "Desktop Entry", "Name"),
        comment: entry_attr(entry, "Desktop Entry", "Comment"),
        categories: entry_attr(entry, "Desktop Entry", "Categories"),
        version: entry_attr(entry, "Desktop Entry", "Version"),
        icon: entry_attr(entry, "Desktop Entry", "Icon"),
    };
    proof {
        let want = fields_of(entry_attrs(*entry));
        assert(texts(ids@) == action_ids(attr_of(entry_attrs(*entry), "Desktop Entry"@, "Actions"@)));
        assert(fields@.actions =~= want.actions);
    }
    fields
}

/// What the bytes of an entry file make: an error where they are no
/// well-formed entry file, and else what their attributes make.
pub open spec fn outcome_of_bytes(bytes: Seq<u8>) -> Result<Option<ProgramModel>, EntryError> {
    match parsed_attrs(bytes) {
        Some(attrs) => outcome(fields_of(attrs)),
        None => Err(EntryError::Malformed),
    }
}

/// Makes the program record of an entry file from its bytes.
pub fn parse_program(bytes: Vec<u8>) -> (r: Result<Option<ProgramResult>, EntryError>)
    ensures
        models(r) == outcome_of_bytes(bytes@),
{
    match parse_bytes(bytes) {
        Ok(entry) => {
            let fields = read_fields(&entry);
            program_from_fields(&fields)
        },
        Err(_) => Err(EntryError::Malformed),
    }
}

} // verus!
