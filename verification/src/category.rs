//! Choice of the one category label shown for a program, out of the list
//! that its entry declares.

use vstd::prelude::*;
use vstd::utf8::is_ascii_chars;
use crate::program::ProgramResult;
use crate::text::{
    chars_of,
    rows,
    split_chars,
    split_on,
    str_eq,
    string_from_chars,
    to_uppercase,
    uppercase_of,
};

verus! {

/// Whether an uppercased category name is one that is never shown: too
/// general, meant for developers, or naming a toolkit or a desktop.
pub open spec fn is_excluded(upper: Seq<char>) -> bool {
    ||| upper == "APPLICATION"@
    ||| upper == "CONSOLEONLY"@
    ||| upper == "NETWORK"@
    ||| upper == "FILETRANSFER"@
    ||| upper == "TEXTEDITOR"@
    ||| upper == "X-XFCE"@
    ||| upper == "GNOME"@
    ||| upper == "XFCE"@
    ||| upper == "GTK"@
    ||| upper == "KDE"@
}

/// Whether a piece of the category list may be shown: it is not empty and
/// its uppercase form is not excluded.
pub open spec fn eligible(token: Seq<char>) -> bool {
    token.len() > 0 && !is_excluded(uppercase_of(token))
}

/// The first eligible piece at or after index `i`.
pub open spec fn first_eligible(tokens: Seq<Seq<char>>, i: int) -> Option<Seq<char>>
    decreases tokens.len() - i,
{
    if i < 0 || i >= tokens.len() {
        None
    } else if eligible(tokens[i]) {
        Some(tokens[i])
    } else {
        first_eligible(tokens, i + 1)
    }
}

/// The characters of a list that may be absent; an absent list is empty.
pub open spec fn list_chars(list: Option<&str>) -> Seq<char> {
    match list {
        Some(s) => s@,
        None => Seq::<char>::empty(),
    }
}

/// The category name chosen from a list separated by `;`: its first eligible
/// piece, or `Application` where there is none.
pub open spec fn chosen_token(list: Seq<char>) -> Seq<char> {
    match first_eligible(split_on(list, ';'), 0) {
        Some(token) => token,
        None => "Application"@,
    }
}

/// The title-case form that `convert_case` gives a string.
pub uninterp spec fn title_case_of(s: Seq<char>) -> Seq<char>;

/// The title-case form of a category name, in capitals.
pub open spec fn label_of(token: Seq<char>) -> Seq<char> {
    uppercase_of(title_case_of(token))
}

/// The label of a chosen category name as its letters give it: its
/// title-case form in capitals where the name is plain ASCII, and the name in
/// capitals where it is not.
pub open spec fn plain_label(token: Seq<char>) -> Seq<char> {
    if is_ascii_chars(token) {
        label_of(token)
    } else {
        uppercase_of(token)
    }
}

/// A label as it is kept: itself, or `APPLICATION` where it is empty.
pub open spec fn label_or_default(label: Seq<char>) -> Seq<char> {
    if label.len() > 0 {
        label
    } else {
        "APPLICATION"@
    }
}

/// The label shown for a chosen category name: the label that its letters
/// give, or `APPLICATION` where they give none.
pub open spec fn shown_label(token: Seq<char>) -> Seq<char> {
    label_or_default(plain_label(token))
}

/// A kept label is never empty, and keeping it again changes nothing.
pub proof fn lemma_label_or_default(label: Seq<char>)
    ensures
        label_or_default(label).len() > 0,
        label_or_default(label_or_default(label)) == label_or_default(label),
{
    reveal_strlit("APPLICATION");
}

/// A shown label is never empty.
pub proof fn lemma_shown_label_not_empty(token: Seq<char>)
    ensures
        shown_label(token).len() > 0,
{
    lemma_label_or_default(plain_label(token));
}

/// Keeps a label, or puts `APPLICATION` in the place of an empty one.
pub fn keep_label(label: String) -> (out: String)
    ensures
        out@ == label_or_default(label@),
        out@.len() > 0,
{
    proof {
        lemma_label_or_default(label@);
    }
    if label.as_str().is_empty() {
        "APPLICATION".to_owned()
    } else {
        label
    }
}

/// Trusted: `convert_case::Casing::to_case` with `Case::Title` on a string
/// slice. The result is a function of the characters alone; it is
/// `title_case_of` of them. Only ASCII input is admitted: the crate cuts
/// words at offsets counted in characters, which need not be boundaries in a
/// string that holds longer characters.
#[verifier::external_body]
pub(crate) fn to_title_case(s: &str) -> (r: String)
    requires
        is_ascii_chars(s@),
    ensures
        r@ == title_case_of(s@),
{
    convert_case::Casing::to_case(s, convert_case::Case::Title)
}

/// Tells whether an uppercased category name is excluded.
pub fn is_excluded_name(upper: &str) -> (b: bool)
    ensures
        b == is_excluded(upper@),
{
    if str_eq(upper, "APPLICATION") || str_eq(upper, "CONSOLEONLY") {
        return true;
    }
    if str_eq(upper, "NETWORK") || str_eq(upper, "FILETRANSFER") {
        return true;
    }
    if str_eq(upper, "TEXTEDITOR") || str_eq(upper, "X-XFCE") {
        return true;
    }
    if str_eq(upper, "GNOME") || str_eq(upper, "XFCE") {
        return true;
    }
    str_eq(upper, "GTK") || str_eq(upper, "KDE")
}

/// Picks the category name to show from a list separated by `;`.
pub fn pick_token(list: Option<&str>) -> (token: String)
    ensures
        token@ == chosen_token(list_chars(list)),
{
    let chars = match list {
        Some(s) => chars_of(s),
        None => Vec::new(),
    };
    let tokens = split_chars(&chars, ';');
    let mut i: usize = 0;
    while i < tokens.len()
        invariant
            i <= tokens@.len(),
            rows(tokens@) == split_on(list_chars(list), ';'),
            first_eligible(rows(tokens@), i as int) == first_eligible(rows(tokens@), 0),
        decreases tokens@.len() - i,
    {
        if tokens[i].len() > 0 {
            let token = string_from_chars(&tokens[i]);
            let upper = to_uppercase(token.as_str());
            if !is_excluded_name(upper.as_str()) {
                return token;
            }
        }
        i += 1;
    }
    "Application".to_owned()
}

/// The label shown for an already chosen category name. It is never empty.
pub fn label(token: &str) -> (out: String)
    ensures
        out@ == shown_label(token@),
        out@.len() > 0,
{
    let plain = if token.is_ascii() {
        let title = to_title_case(token);
        to_uppercase(title.as_str())
    } else {
        to_uppercase(token)
    };
    keep_label(plain)
}

impl ProgramResult {
    /// Chooses the category label of a program from the list that its entry
    /// declares, or from none. The label is never empty.
    pub fn choose_category(list: Option<&str>) -> (out: String)
        ensures
            out@ == shown_label(chosen_token(list_chars(list))),
            out@.len() > 0,
    {
        let token = pick_token(list);
        label(token.as_str())
    }
}

/// What `first_eligible` finds is an eligible piece at or after the index,
/// and nothing eligible lies before it.
pub proof fn lemma_first_eligible(tokens: Seq<Seq<char>>, i: int)
    requires
        0 <= i <= tokens.len(),
    ensures
        match first_eligible(tokens, i) {
            Some(token) => exists|k: int|
                {
                    &&& i <= k < tokens.len()
                    &&& #[trigger] tokens[k] == token
                    &&& eligible(token)
                    &&& forall|j: int| i <= j < k ==> !eligible(#[trigger] tokens[j])
                },
            None => forall|j: int| i <= j < tokens.len() ==> !eligible(#[trigger] tokens[j]),
        },
    decreases tokens.len() - i,
{
    if i < tokens.len() {
        if eligible(tokens[i]) {
            assert(tokens[i] == tokens[i]);
        } else {
            lemma_first_eligible(tokens, i + 1);
            match first_eligible(tokens, i + 1) {
                Some(token) => {
                    let k = choose|k: int|
                        {
                            &&& i + 1 <= k < tokens.len()
                            &&& #[trigger] tokens[k] == token
                            &&& eligible(token)
                            &&& forall|j: int| i + 1 <= j < k ==> !eligible(#[trigger] tokens[j])
                        };
                    assert(forall|j: int| i <= j < k ==> !eligible(#[trigger] tokens[j]));
                },
                None => {},
            }
        }
    }
}

/// The chosen name is never an excluded one taken from the list: it is an
/// eligible piece of the list, or the default name.
pub proof fn lemma_chosen_is_eligible_or_default(list: Seq<char>)
    ensures
        chosen_token(list) == "Application"@ || (eligible(chosen_token(list)) && split_on(
            list,
            ';',
        ).contains(chosen_token(list))),
{
    lemma_first_eligible(split_on(list, ';'), 0);
}

/// With no list at all the default name is chosen.
pub proof fn lemma_absent_list()
    ensures
        chosen_token(list_chars(None)) == "Application"@,
{
    let empty = Seq::<char>::empty();
    assert(split_on(empty, ';') == seq![empty]);
    assert(!eligible(empty));
    assert(first_eligible(seq![empty], 1) is None);
    assert(first_eligible(seq![empty], 0) is None);
}

} // verus!
