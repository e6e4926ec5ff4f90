//! Turning file contents into what a page shows: text with a language tag, a hex dump,
//! or a README.

use crate::config::{override_for, overrides_view, select_lang, Override};
use crate::hexdump::{fmt_xxd_hexdump, hexdump};
use crate::listing::{File, FileView};
use crate::text::{chars_of, decode_lossy, lossy_utf8, same_text};
use pulldown_cmark::Options;
use vstd::prelude::*;
use vstd::string::StringExecFns;

verus! {

/// The HTML that pulldown-cmark renders for a Markdown text with tables, footnotes,
/// strikethrough, task lists and smart punctuation enabled.
pub uninterp spec fn markdown_html(text: Seq<char>) -> Seq<char>;

/// Relies on `pulldown_cmark::Parser::new_ext` and `pulldown_cmark::html::push_html`: the
/// HTML depends on the text and the fixed options alone.
#[verifier::external_body]
fn markdown_to_html(text: &str) -> (r: String)
    ensures
        r@ == markdown_html(text@),
{
    let options = Options::ENABLE_TABLES | Options::ENABLE_FOOTNOTES | Options::ENABLE_STRIKETHROUGH
        | Options::ENABLE_TASKLISTS | Options::ENABLE_SMART_PUNCTUATION;
    let mut html = String::new();
    pulldown_cmark::html::push_html(&mut html, pulldown_cmark::Parser::new_ext(text, options));
    html
}

/// The contents of a file as a page shows them.
#[derive(Clone, Debug)]
pub struct RenderedContent {
    pub text: String,
    /// The language to highlight the text as, if any.
    pub lang: Option<String>,
}

/// A README ready to be shown below a listing.
#[derive(Clone, Debug)]
pub struct Readme {
    pub content: String,
    /// Whether `content` is HTML; plain text still needs escaping.
    pub is_html: bool,
}

/// The tag given to hex dumps.
pub open spec fn hexdump_tag() -> Seq<char> {
    seq!['h', 'e', 'x', 'd', 'u', 'm', 'p']
}

/// The suffix that marks a README as Markdown.
pub open spec fn markdown_suffix() -> Seq<char> {
    seq!['.', 'm', 'd']
}

pub open spec fn ends_with(s: Seq<char>, suffix: Seq<char>) -> bool {
    suffix.len() <= s.len() && s.subrange(s.len() - suffix.len(), s.len() as int) == suffix
}

/// Whether `r` shows `content` of a file named `name`: binary content as a hex dump
/// tagged `hexdump`; text decoded as UTF-8, with invalid sequences replaced, and tagged with
/// the language of the first override whose pattern matches the name.
pub open spec fn rendered_as(r: RenderedContent, content: Seq<u8>, is_binary: bool, name: Seq<char>, overrides: Seq<Override>) -> bool {
    if is_binary {
        r.text@ == hexdump(content) && (r.lang matches Some(l) && l@ == hexdump_tag())
    } else {
        r.text@ == lossy_utf8(content) && match override_for(overrides_view(overrides), name) {
            Some(l) => r.lang matches Some(x) && x@ == l,
            None => r.lang is None,
        }
    }
}

/// Whether `x` shows the text `content` of a README named `name`: rendered to HTML when
/// the name ends with `.md`, as it is otherwise.
pub open spec fn readme_of(x: Readme, name: Seq<char>, content: Seq<u8>) -> bool {
    if ends_with(name, markdown_suffix()) {
        x.is_html && x.content@ == markdown_html(lossy_utf8(content))
    } else {
        !x.is_html && x.content@ == lossy_utf8(content)
    }
}

/// Renders a file's bytes: binary content as a hex dump tagged `hexdump`; text decoded as
/// UTF-8, with invalid sequences replaced, and tagged with the language of the first
/// override whose pattern matches the file name.
pub fn render_content(content: &[u8], is_binary: bool, name: &str, overrides: &Vec<Override>) -> (r: RenderedContent)
    ensures
        rendered_as(r, content@, is_binary, name@, overrides@),
{
    if is_binary {
        proof {
            reveal_strlit("hexdump");
        }
        let tag = String::from_str("hexdump");
        assert(tag@ =~= hexdump_tag());
        RenderedContent { text: fmt_xxd_hexdump(content), lang: Some(tag) }
    } else {
        RenderedContent { text: decode_lossy(content), lang: select_lang(overrides, name) }
    }
}

fn ends_with_md(name: &str) -> (r: bool)
    ensures
        r == ends_with(name@, markdown_suffix()),
{
    let cs = chars_of(name);
    let n = cs.len();
    if n < 3 {
        return false;
    }
    let r = cs[n - 3] == '.' && cs[n - 2] == 'm' && cs[n - 1] == 'd';
    assert(r ==> cs@.subrange(n - 3, n as int) =~= markdown_suffix());
    assert(cs@.subrange(n - 3, n as int) == markdown_suffix() ==> cs@.subrange(n - 3, n as int)[0] == '.'
        && cs@.subrange(n - 3, n as int)[1] == 'm' && cs@.subrange(n - 3, n as int)[2] == 'd');
    r
}

/// The README shown for a file named `name` with the given contents: none for binary
/// contents; HTML for a name ending in `.md`; the text itself otherwise.
pub fn readme_from_content(name: &str, content: &[u8], is_binary: bool) -> (r: Option<Readme>)
    ensures
        is_binary ==> r is None,
        !is_binary ==> (r matches Some(x) && readme_of(x, name@, content@)),
{
    if is_binary {
        return None;
    }
    let text = decode_lossy(content);
    if ends_with_md(name) {
        Some(Readme { content: markdown_to_html(text.as_str()), is_html: true })
    } else {
        Some(Readme { content: text, is_html: false })
    }
}

/// Rendering a README is a function of its name and contents: two renderings of the
/// same file are the same.
pub proof fn lemma_readme_rendering_repeats(name: Seq<char>, content: Seq<u8>, x: Readme, y: Readme)
    requires
        readme_of(x, name, content),
        readme_of(y, name, content),
    ensures
        x.is_html == y.is_html,
        x.content@ == y.content@,
{
}

/// The index of the first listing line whose path is `path`, if any.
pub open spec fn line_index(files: Seq<FileView>, path: Seq<char>) -> Option<int> {
    if exists|i: int| 0 <= i < files.len() && (#[trigger] files[i]).path == path {
        Some(choose|i: int| 0 <= i < files.len() && files[i].path == path
            && forall|j: int| 0 <= j < i ==> (#[trigger] files[j]).path != path)
    } else {
        None
    }
}

/// The listing line of the configured README: none when no README is configured or
/// when the listing holds no line with exactly that path.
pub fn readme_entry<'a>(readme_path: &Option<String>, files: &'a Vec<File>) -> (r: Option<&'a File>)
    ensures
        readme_path is None ==> r is None,
        readme_path matches Some(p) ==> match line_index(crate::listing::files_view(files@), p@) {
            Some(i) => r == Some(&files@[i]),
            None => r is None,
        },
{
    let path = match readme_path {
        Some(p) => p,
        None => return None,
    };
    let ghost v = crate::listing::files_view(files@);
    let mut i: usize = 0;
    while i < files.len()
        invariant
            i <= files@.len(),
            v == crate::listing::files_view(files@),
            readme_path == Some(*path),
            forall|j: int| 0 <= j < i ==> (#[trigger] v[j]).path != path@,
        decreases files@.len() - i,
    {
        if same_text(files[i].path.as_str(), path.as_str()) {
            assert(v[i as int].path == path@);
            assert(exists|j: int| 0 <= j < v.len() && (#[trigger] v[j]).path == path@);
            let ghost k = line_index(v, path@)->0;
            assert(k == i as int) by {
                if k < i as int {
                } else if k > i as int {
                }
            }
            return Some(&files[i]);
        }
        i = i + 1;
    }
    None
}

} // verus!
