use vstd::prelude::*;
use crate::text::{push_all, replace_all, replace_chars, string_of, to_chars};

verus! {

/// A note as the editor hands it over.
#[derive(Clone, Debug)]
pub struct Note {
    pub title: String,
    pub content: String,
    pub created_at: String,
}

/// The plain-text export: a `Title:` line, a `Date:` line, a blank line and
/// the content as written, markup included.
pub open spec fn export_text_of(title: Seq<char>, created_at: Seq<char>, content: Seq<char>) -> Seq<
    char,
> {
    "Title: "@ + title + "\nDate: "@ + created_at + "\n\n"@ + content
}

/// The export file: `<home>/Desktop/<title>.txt`, each space of the title
/// written as an underscore.
pub open spec fn export_path_of(home: Seq<char>, title: Seq<char>) -> Seq<char> {
    home + "/Desktop/"@ + replace_all(title, " "@, "_"@) + ".txt"@
}

impl Note {
    /// The note as plain text, for export.
    pub fn export_text(&self) -> (r: String)
        ensures
            r@ == export_text_of(self.title@, self.created_at@, self.content@),
    {
        let mut out = to_chars("Title: ");
        push_all(&mut out, &to_chars(self.title.as_str()));
        push_all(&mut out, &to_chars("\nDate: "));
        push_all(&mut out, &to_chars(self.created_at.as_str()));
        push_all(&mut out, &to_chars("\n\n"));
        push_all(&mut out, &to_chars(self.content.as_str()));
        string_of(&out)
    }

    /// Where the note is exported, below the home directory `home`.
    pub fn export_path(&self, home: &str) -> (r: String)
        ensures
            r@ == export_path_of(home@, self.title@),
    {
        proof {
            reveal_strlit(" ");
        }
        let mut out = to_chars(home);
        push_all(&mut out, &to_chars("/Desktop/"));
        let t = replace_chars(&to_chars(self.title.as_str()), &to_chars(" "), &to_chars("_"));
        push_all(&mut out, &t);
        push_all(&mut out, &to_chars(".txt"));
        string_of(&out)
    }
}

} // verus!
