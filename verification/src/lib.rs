use vstd::prelude::*;

pub mod body_parser;
pub mod callback;
pub mod dom_parser;
pub mod link_type_checker;
pub mod page_loader;
pub mod percent;
pub mod responses;
pub mod site_crawler;
pub mod text;
pub mod uri_parse;
pub mod uri_service;

verus! {

/// The behaviour of `String::push`: the character is appended.
pub assume_specification[ String::push ](s: &mut String, ch: char)
    ensures
        final(s)@ == old(s)@.push(ch),
;

} // verus!
