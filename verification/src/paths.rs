//! File names of a run: where the translated file and the checkpoint go.
//!
//! Paths are taken apart by `std::path::Path`, under the path syntax of the
//! platform that the library is built for.

use std::path::Path;
use vstd::prelude::*;

verus! {

/// What `std::path::Path::parent` gives for the path spelled `path`, as text:
/// the outer level is `None` where the path has no parent, the inner one
/// where the parent is not valid Unicode.
pub uninterp spec fn path_parent(path: Seq<char>) -> Option<Option<Seq<char>>>;

/// What `std::path::Path::file_stem` gives for the path spelled `path`, as
/// text: the outer level is `None` where the path has no file name, the inner
/// one where the stem is not valid Unicode.
pub uninterp spec fn path_file_stem(path: Seq<char>) -> Option<Option<Seq<char>>>;

/// What `std::path::Path::extension` gives for the path spelled `path`, as
/// text: the outer level is `None` where the file name has no extension, the
/// inner one where the extension is not valid Unicode.
pub uninterp spec fn path_extension(path: Seq<char>) -> Option<Option<Seq<char>>>;

/// Calls `std::path::Path::parent` on `path` and hands the parent back as
/// text. Nothing is claimed of the parent but that it is [`path_parent`] of
/// the same characters.
#[verifier::external_body]
fn parent_text(path: &str) -> (r: Option<Option<String>>)
    ensures
        r.deep_view() == path_parent(path@),
{
    Path::new(path).parent().map(|p| p.to_str().map(String::from))
}

/// Calls `std::path::Path::file_stem` on `path` and hands the stem back as
/// text. Nothing is claimed of the stem but that it is [`path_file_stem`] of
/// the same characters.
#[verifier::external_body]
fn file_stem_text(path: &str) -> (r: Option<Option<String>>)
    ensures
        r.deep_view() == path_file_stem(path@),
{
    Path::new(path).file_stem().map(|s| s.to_str().map(String::from))
}

/// Calls `std::path::Path::extension` on `path` and hands the extension back
/// as text. Nothing is claimed of the extension but that it is
/// [`path_extension`] of the same characters.
#[verifier::external_body]
fn extension_text(path: &str) -> (r: Option<Option<String>>)
    ensures
        r.deep_view() == path_extension(path@),
{
    Path::new(path).extension().map(|s| s.to_str().map(String::from))
}

/// The text of a path component, empty where the path has none or where it
/// cannot be written as text.
pub open spec fn text_or_empty(part: Option<Option<Seq<char>>>) -> Seq<char> {
    match part {
        Some(Some(text)) => text,
        _ => Seq::empty(),
    }
}

/// `name` inside `dir`; `name` alone where `dir` is empty, so that no path
/// starts at the root by accident.
pub open spec fn stem_in_dir(dir: Seq<char>, name: Seq<char>) -> Seq<char> {
    if dir.len() == 0 {
        name
    } else {
        dir + seq!['/'] + name
    }
}

/// The checkpoint of the run that writes to `stem` and `ext`.
pub open spec fn checkpoint_name(stem: Seq<char>, ext: Seq<char>) -> Seq<char> {
    stem + seq!['.'] + ext + seq!['.', 't', 'e', 'm', 'p']
}

/// The translated file of the run that writes to `stem` and `ext`.
pub open spec fn translated_name(stem: Seq<char>, ext: Seq<char>) -> Seq<char> {
    stem + seq!['-', 't', 'r', 'a', 'n', 's', 'l', 'a', 't', 'e', '.'] + ext
}

fn component_text(part: Option<Option<String>>) -> (r: String)
    ensures
        r@ == text_or_empty(part.deep_view()),
{
    match part {
        Some(Some(text)) => text,
        _ => String::new(),
    }
}

/// Puts the file stem `name` into the directory `dir`.
pub fn join_stem(dir: String, name: String) -> (r: String)
    ensures
        r@ == stem_in_dir(dir@, name@),
{
    if dir.as_str().is_empty() {
        name
    } else {
        proof {
            reveal_strlit("/");
        }
        dir.concat("/").concat(name.as_str())
    }
}

/// Splits the file name `to_file` into the path of its stem, directory
/// included, and its extension. A part that the path lacks is empty.
pub fn parse_filename_ext(to_file: &str) -> (r: (String, String))
    ensures
        r.0@ == stem_in_dir(
            text_or_empty(path_parent(to_file@)),
            text_or_empty(path_file_stem(to_file@)),
        ),
        r.1@ == text_or_empty(path_extension(to_file@)),
{
    let dir = component_text(parent_text(to_file));
    let name = component_text(file_stem_text(to_file));
    let ext = component_text(extension_text(to_file));
    (join_stem(dir, name), ext)
}

/// The path of the checkpoint that belongs to the output `stem` and `ext`.
/// The same output gives the same checkpoint, so a second run finds the first
/// one's records.
pub fn checkpoint_path(stem: &str, ext: &str) -> (r: String)
    ensures
        r@ == checkpoint_name(stem@, ext@),
{
    proof {
        reveal_strlit(".");
        reveal_strlit(".temp");
    }
    String::from_str(stem).concat(".").concat(ext).concat(".temp")
}

/// The path of the translated file for the output `stem` and `ext`.
pub fn output_path(stem: &str, ext: &str) -> (r: String)
    ensures
        r@ == translated_name(stem@, ext@),
{
    proof {
        reveal_strlit("-translate.");
    }
    String::from_str(stem).concat("-translate.").concat(ext)
}

} // verus!
