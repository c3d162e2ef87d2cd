//! The glyph that stands for an application in menus and labels.

use vstd::prelude::*;
use vstd::string::StringExecFns;
use crate::text::{chars_of, contains, is_substring, lowercase, to_lowercase};

verus! {

/// The table of glyphs: the name that is looked for in an application class,
/// and the glyph for it. The last row is the default.
pub open spec fn icon_rows() -> Seq<(Seq<char>, Seq<char>)> {
    seq![
        ("firefox"@, ""@),
        ("Alacritty"@, ""@),
        ("kitty"@, ""@),
        ("discord"@, "\u{f066f}"@),
        ("Steam"@, ""@),
        ("chromium"@, ""@),
        ("chrome"@, ""@),
        ("code"@, "\u{f0a1e}"@),
        ("spotify"@, ""@),
        ("default"@, "\u{f05b2}"@),
    ]
}

/// The table of glyphs.
pub fn icon_table() -> (rows: Vec<(&'static str, &'static str)>)
    ensures
        rows.deep_view() == icon_rows(),
{
    let mut rows: Vec<(&'static str, &'static str)> = Vec::new();
    rows.push(("firefox", ""));
    rows.push(("Alacritty", ""));
    rows.push(("kitty", ""));
    rows.push(("discord", "\u{f066f}"));
    rows.push(("Steam", ""));
    rows.push(("chromium", ""));
    rows.push(("chrome", ""));
    rows.push(("code", "\u{f0a1e}"));
    rows.push(("spotify", ""));
    rows.push(("default", "\u{f05b2}"));
    assert(rows.deep_view() =~= icon_rows());
    rows
}

/// The index of the first of `names` that is part of `class`, or the number
/// of names if none is.
pub open spec fn first_match(names: Seq<Seq<char>>, class: Seq<char>) -> int
    decreases names.len(),
{
    if names.len() == 0 || is_substring(class, names[0]) {
        0
    } else {
        1 + first_match(names.drop_first(), class)
    }
}

/// The glyph for a class: that of the first row whose name, in the lowered
/// form given by `names`, is part of the lowered class; the glyph of the last
/// row if no name is.
pub open spec fn chosen_glyph(
    rows: Seq<(Seq<char>, Seq<char>)>,
    names: Seq<Seq<char>>,
    class: Seq<char>,
) -> Seq<char> {
    let hit = first_match(names, class);
    if 0 <= hit < rows.len() {
        rows[hit].1
    } else {
        rows.last().1
    }
}

/// The names of the table in lower case.
pub open spec fn lowered_names(rows: Seq<(Seq<char>, Seq<char>)>) -> Seq<Seq<char>> {
    Seq::new(rows.len(), |i: int| lowercase(rows[i].0))
}

/// The glyph for an application class: the class and the names of the table
/// are compared in lower case, and the first name that is part of the class
/// decides.
pub open spec fn app_icon(class: Seq<char>) -> Seq<char> {
    chosen_glyph(icon_rows(), lowered_names(icon_rows()), lowercase(class))
}

/// `first_match` is the least index whose name is part of the class.
pub proof fn lemma_first_match(names: Seq<Seq<char>>, class: Seq<char>, k: int)
    requires
        0 <= k <= names.len(),
        forall|j: int| 0 <= j < k ==> !is_substring(class, #[trigger] names[j]),
        k < names.len() ==> is_substring(class, names[k]),
    ensures
        first_match(names, class) == k,
    decreases names.len(),
{
    if names.len() == 0 {
    } else if k == 0 {
    } else {
        assert(!is_substring(class, names[0]));
        let rest = names.drop_first();
        assert forall|j: int| 0 <= j < k - 1 implies !is_substring(class, #[trigger] rest[j]) by {
            assert(rest[j] == names[j + 1]);
        }
        lemma_first_match(rest, class, k - 1);
    }
}

/// Picks the glyph for a class from a table, given the class and the names
/// of the table in lower case.
pub fn choose_icon(
    rows: &Vec<(&'static str, &'static str)>,
    names: &Vec<String>,
    class: &str,
) -> (icon: String)
    requires
        rows.len() > 0,
        names.len() == rows.len(),
    ensures
        icon@ == chosen_glyph(rows.deep_view(), names.deep_view(), class@),
{
    let hay = chars_of(class);
    let mut i: usize = 0;
    while i < names.len()
        invariant
            i <= names.len(),
            names.len() == rows.len(),
            hay@ == class@,
            forall|j: int| 0 <= j < i ==> !is_substring(class@, #[trigger] names.deep_view()[j]),
        decreases names.len() - i,
    {
        let needle = chars_of(names[i].as_str());
        assert(names.deep_view()[i as int] == needle@);
        if contains(&hay, &needle) {
            proof {
                lemma_first_match(names.deep_view(), class@, i as int);
            }
            return String::from_str(rows[i].1);
        }
        i += 1;
    }
    proof {
        lemma_first_match(names.deep_view(), class@, names.len() as int);
    }
    String::from_str(rows[rows.len() - 1].1)
}

/// The glyph for an application class. There is one for every class: a class
/// that no row of the table matches gets the default glyph.
pub fn get_app_icon(class_name: &str) -> (icon: String)
    ensures
        icon@ == app_icon(class_name@),
{
    let rows = icon_table();
    let mut names: Vec<String> = Vec::new();
    let mut i: usize = 0;
    while i < rows.len()
        invariant
            i <= rows.len(),
            rows.deep_view() == icon_rows(),
            names.len() == i,
            forall|j: int| 0 <= j < i ==> (#[trigger] names@[j])@ == lowercase(icon_rows()[j].0),
        decreases rows.len() - i,
    {
        assert(rows.deep_view()[i as int].0 == rows[i as int].0@);
        names.push(to_lowercase(rows[i].0));
        i += 1;
    }
    assert(names.deep_view() =~= lowered_names(icon_rows()));
    let class = to_lowercase(class_name);
    choose_icon(&rows, &names, class.as_str())
}

} // verus!
