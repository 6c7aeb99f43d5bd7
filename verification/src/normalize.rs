//! Cache-key derivation per request category.
//!
//! Prompt-completion keys are fuzzy: the prompt is lowercased and every
//! newline becomes a single space, so prompts that differ only in letter
//! case or line breaks collide intentionally. Document and aggregation
//! keys are exact identifiers and pass through verbatim.

use vstd::prelude::*;
use crate::models::QueryType;
use crate::text::push_char;

verus! {

/// What lowercasing a string with these characters yields. The mapping
/// is Unicode case folding, a function of the characters alone; it is
/// named rather than spelled out, and the library states nothing about
/// its value on given characters.
pub uninterp spec fn lower_of(s: Seq<char>) -> Seq<char>;

/// Relies on `str::to_lowercase`: the lowercase form of the string,
/// depending on its characters alone; an empty string stays empty.
#[verifier::external_body]
fn lowercase(s: &str) -> (r: String)
    ensures
        r@ == lower_of(s@),
        s@.len() == 0 ==> r@.len() == 0,
{
    s.to_lowercase()
}

/// The string with every newline replaced by a single space.
pub open spec fn replace_newlines(s: Seq<char>) -> Seq<char> {
    s.map_values(|c: char| if c == '\n' { ' ' } else { c })
}

/// The normalized form of a prompt: lowercased, then newlines to spaces.
pub open spec fn norm_prompt(s: Seq<char>) -> Seq<char> {
    replace_newlines(lower_of(s))
}

/// The cache key derived from raw input for a category: normalized for
/// prompt completions, verbatim for the other two categories.
pub open spec fn spec_cache_key(query_type: QueryType, raw: Seq<char>) -> Seq<char> {
    match query_type {
        QueryType::PromptCompletion => norm_prompt(raw),
        QueryType::DocumentCompletion => raw,
        QueryType::AggregationCompletion => raw,
    }
}

fn newline_to_space(c: char) -> (r: char)
    ensures
        r == (if c == '\n' {
            ' '
        } else {
            c
        }),
{
    if c == '\n' {
        ' '
    } else {
        c
    }
}

/// Derives the cache key for a request: a pure function with no failure
/// mode. Prompt text is lowercased and its newlines become spaces;
/// document and aggregation inputs are returned unchanged.
pub fn normalize(query_type: QueryType, raw: &String) -> (key: String)
    ensures
        key@ == spec_cache_key(query_type, raw@),
{
    match query_type {
        QueryType::PromptCompletion => {
            let lowered = lowercase(raw.as_str());
            let n = lowered.as_str().unicode_len();
            let mut out = String::new();
            let mut i: usize = 0;
            while i < n
                invariant
                    i <= n,
                    n == lowered@.len(),
                    lowered@ == lower_of(raw@),
                    out@ == replace_newlines(lowered@.take(i as int)),
                decreases n - i,
            {
                let c = lowered.as_str().get_char(i);
                push_char(&mut out, newline_to_space(c));
                i = i + 1;
                proof {
                    assert(out@ =~= replace_newlines(lowered@.take(i as int)));
                }
            }
            proof {
                assert(lowered@.take(n as int) =~= lowered@);
            }
            out
        },
        QueryType::DocumentCompletion => raw.clone(),
        QueryType::AggregationCompletion => raw.clone(),
    }
}

/// The composite key for a document or aggregation completion: the
/// document title and battery label, passed through verbatim.
pub fn document_key(title: &String, battery_label: &String) -> (k: String)
    ensures
        k@ == title@ + " - "@ + battery_label@,
{
    let mut k = title.clone();
    k.append(" - ");
    k.append(battery_label.as_str());
    k
}

/// The composite key for a free question about one document: the title
/// and the already-normalized prompt.
pub fn question_key(title: &String, prompt: &String) -> (k: String)
    ensures
        k@ == title@ + ": "@ + prompt@,
{
    let mut k = title.clone();
    k.append(": ");
    k.append(prompt.as_str());
    k
}

/// Where the document for a title is expected on disk, given the
/// directory the caller keeps documents in.
pub open spec fn spec_pdf_path(dir: Seq<char>, title: Seq<char>) -> Seq<char> {
    if dir.len() > 0 && dir.last() == '/' {
        dir + title + ".pdf"@
    } else if exists|i: int| 0 <= i < dir.len() && #[trigger] dir[i] == '\\' {
        dir + "\\"@ + title + ".pdf"@
    } else {
        dir + "/"@ + title + ".pdf"@
    }
}

/// Joins a directory and a title into the path of the document file,
/// keeping the directory's own separator style.
pub fn pdf_path(dir: &String, title: &String) -> (p: String)
    ensures
        p@ == spec_pdf_path(dir@, title@),
{
    let n = dir.as_str().unicode_len();
    let ends_slash = n > 0 && dir.as_str().get_char(n - 1) == '/';
    let mut has_backslash = false;
    let mut i: usize = 0;
    while i < n
        invariant
            i <= n,
            n == dir@.len(),
            has_backslash == exists|j: int| 0 <= j < i && #[trigger] dir@[j] == '\\',
        decreases n - i,
    {
        if dir.as_str().get_char(i) == '\\' {
            has_backslash = true;
        }
        i = i + 1;
    }
    let mut p = dir.clone();
    if ends_slash {
        p.append(title.as_str());
        p.append(".pdf");
    } else if has_backslash {
        p.append("\\");
        p.append(title.as_str());
        p.append(".pdf");
    } else {
        p.append("/");
        p.append(title.as_str());
        p.append(".pdf");
    }
    p
}

/// True when two already-lowercased prompts differ only in embedded
/// newlines: character for character equal, except where one holds a
/// newline and the other a newline or a space.
pub open spec fn newline_space_variants(a: Seq<char>, b: Seq<char>) -> bool {
    &&& a.len() == b.len()
    &&& forall|i: int|
        0 <= i < a.len() ==> (#[trigger] a[i] == b[i] || ((a[i] == '\n' || a[i] == ' ') && (b[i]
            == '\n' || b[i] == ' ')))
}

/// Prompts that differ only in letter case or embedded newlines derive
/// the same prompt-completion cache key: prompts differing only in case
/// share one lowercase form outright, and a residual newline-against-
/// space difference between the lowercase forms is erased by the
/// replacement.
pub proof fn law_normalize_case_newline(p1: Seq<char>, p2: Seq<char>)
    requires
        newline_space_variants(lower_of(p1), lower_of(p2)),
    ensures
        norm_prompt(p1) == norm_prompt(p2),
{
    let a = lower_of(p1);
    let b = lower_of(p2);
    assert forall|i: int| 0 <= i < a.len() implies (if a[i] == '\n' {
        ' '
    } else {
        a[i]
    }) == (if b[i] == '\n' {
        ' '
    } else {
        b[i]
    }) by {
        assert(a[i] == b[i] || ((a[i] == '\n' || a[i] == ' ') && (b[i] == '\n' || b[i] == ' ')));
    }
    assert(replace_newlines(a) =~= replace_newlines(b));
}

} // verus!
