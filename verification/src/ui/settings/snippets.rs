//! The snippet editor: checking its fields and building the snippet it saves.

use crate::text::{chars_of, nonblank_pieces, split_nonblank, string_from_chars, trim, trim_seq};
use vstd::prelude::*;

verus! {

/// A snippet as the editor saves it.
#[derive(Debug, Clone)]
pub struct SnippetDraft {
    /// The id of the snippet being edited; none for a new snippet.
    pub id: Option<i64>,
    pub name: String,
    pub template: String,
    pub description: String,
    pub tags: Vec<String>,
}

/// The editor refuses to save: the name or the template is blank.
pub open spec fn snippet_fields_blank(name: Seq<char>, template: Seq<char>) -> bool {
    trim_seq(name).len() == 0 || trim_seq(template).len() == 0
}

/// The tags typed into the editor: split at commas, each trimmed, the blank
/// ones left out.
pub open spec fn snippet_tags(tags: Seq<char>) -> Seq<Seq<char>> {
    nonblank_pieces(tags, 0, ',')
}

fn trimmed_string(s: &str) -> (r: String)
    ensures
        r@ == trim_seq(s@),
{
    let cs = chars_of(s);
    let t = trim(cs.as_slice());
    string_from_chars(t.as_slice())
}

/// The snippet the editor's Save button stores, or `None` (the dialog
/// reporting that a name and a template are required) when the name or the
/// template is blank. Name, template and description are trimmed; the tags
/// are [`snippet_tags`]; the id is that of the edited snippet.
pub fn snippet_from_editor(
    editing_id: Option<i64>,
    name: &str,
    template: &str,
    description: &str,
    tags: &str,
) -> (r: Option<SnippetDraft>)
    ensures
        r is None <==> snippet_fields_blank(name@, template@),
        r matches Some(d) ==> {
            &&& d.id == editing_id
            &&& d.name@ == trim_seq(name@)
            &&& d.template@ == trim_seq(template@)
            &&& d.description@ == trim_seq(description@)
            &&& d.tags@.len() == snippet_tags(tags@).len()
            &&& forall|i: int| 0 <= i < d.tags@.len() ==> #[trigger] d.tags@[i]@ == snippet_tags(tags@)[i]
        },
{
    let name_t = trimmed_string(name);
    let template_t = trimmed_string(template);
    if chars_of(name_t.as_str()).len() == 0 || chars_of(template_t.as_str()).len() == 0 {
        return None;
    }
    let tag_chars = chars_of(tags);
    let pieces = split_nonblank(tag_chars.as_slice(), ',');
    let ghost pv = snippet_tags(tags@);
    assert(pv == crate::text::line_views(pieces@));
    let mut tag_list: Vec<String> = Vec::new();
    let mut i: usize = 0;
    while i < pieces.len()
        invariant
            i <= pieces@.len(),
            pv == crate::text::line_views(pieces@),
            tag_list@.len() == i,
            forall|k: int| 0 <= k < i ==> #[trigger] tag_list@[k]@ == pv[k],
        decreases pieces@.len() - i,
    {
        tag_list.push(string_from_chars(pieces[i].as_slice()));
        i = i + 1;
    }
    Some(SnippetDraft {
        id: editing_id,
        name: name_t,
        template: template_t,
        description: trimmed_string(description),
        tags: tag_list,
    })
}

} // verus!
