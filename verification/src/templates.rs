//! The templates that handlers fill in.
use tera::Tera;
use vstd::prelude::*;

use crate::page::list_in_test;
use crate::site::Sources;

verus! {

#[verifier::external_type_specification]
#[verifier::external_body]
pub struct ExTera(tera::Tera);

#[verifier::external_type_specification]
#[verifier::external_body]
pub struct ExTeraError(tera::Error);

/// The sources that the templates were made from, by name.
pub uninterp spec fn sources_of(tera: Tera) -> Sources;

/// The endings of the names of those templates whose values are escaped.
pub uninterp spec fn escaped_by(tera: Tera) -> Seq<Seq<char>>;

/// A template with this name and this source can stand alone: it can be
/// parsed, and needs no other template. (The parser also gives up, with an
/// error, when it is about to run out of stack; that is left aside here.)
pub uninterp spec fn stands_alone(name: Seq<char>, source: Seq<char>) -> bool;

/// `tera::Tera::default`: no templates.
#[verifier::external_body]
pub(crate) fn no_templates() -> (tera: Tera)
    ensures
        sources_of(tera) == Sources::empty(),
        escaped_by(tera) == seq![".html"@, ".htm"@, ".xml"@],
{
    Tera::default()
}

/// `tera::Tera::autoescape_on`: values are escaped in the templates whose
/// names have one of these endings, and in no others.
#[verifier::external_body]
pub(crate) fn autoescape_on(tera: &mut Tera, suffixes: Vec<&'static str>)
    ensures
        escaped_by(*final(tera)) == suffixes@.map_values(|s: &'static str| s@),
        sources_of(*final(tera)) == sources_of(*old(tera)),
{
    tera.autoescape_on(suffixes)
}

/// `tera::Tera::add_raw_template`, where there is no template yet: it takes
/// what can stand alone, and then holds the template that is made from this
/// source. What it leaves behind where it fails is not stated.
///
/// It panics on a page that its grammar takes and in which a test is handed a
/// list.
#[verifier::external_body]
pub(crate) fn add_raw_template(tera: &mut Tera, name: &str, source: &str) -> (r: Result<
    (),
    tera::Error,
>)
    requires
        sources_of(*old(tera)) == Sources::empty(),
        !crate::page::hands_list_to_test(source@),
    ensures
        r is Ok <==> stands_alone(name@, source@),
        r is Ok ==> sources_of(*final(tera)) == sources_of(*old(tera)).insert(name@, source@),
        escaped_by(*final(tera)) == escaped_by(*old(tera)),
{
    tera.add_raw_template(name, source)
}

/// Why a page is no template.
pub enum TemplateError {
    /// A test in the page is handed a list, which the templates do not support.
    ListInTest,
    /// The page is no template for another reason.
    Rejected(tera::Error),
}

/// The index page can be used as a template.
pub open spec fn is_index_template(index_html: Seq<char>) -> bool {
    &&& !crate::page::hands_list_to_test(index_html)
    &&& stands_alone("index.html"@, index_html)
}

/// Why the index page cannot be used as a template.
pub open spec fn is_refusal(err: TemplateError, index_html: Seq<char>) -> bool {
    match err {
        TemplateError::ListInTest => crate::page::hands_list_to_test(index_html),
        TemplateError::Rejected(_) => !crate::page::hands_list_to_test(index_html)
            && !stands_alone("index.html"@, index_html),
    }
}

/// The templates of the site: the index page, under the name `index.html`. The
/// values that are filled in are not escaped.
pub fn index_templates(index_html: &str) -> (r: Result<Tera, TemplateError>)
    ensures
        match r {
            Ok(tera) => {
                &&& is_index_template(index_html@)
                &&& sources_of(tera) == Sources::empty().insert("index.html"@, index_html@)
                &&& escaped_by(tera) == Seq::<Seq<char>>::empty()
            },
            Err(err) => is_refusal(err, index_html@),
        },
{
    if list_in_test(index_html) {
        return Err(TemplateError::ListInTest);
    }
    let mut tera = no_templates();
    autoescape_on(&mut tera, vec![]);
    match add_raw_template(&mut tera, "index.html", index_html) {
        Ok(_) => Ok(tera),
        Err(err) => Err(TemplateError::Rejected(err)),
    }
}

} // verus!
