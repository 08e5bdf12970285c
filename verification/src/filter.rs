//! The two filters of a run: one on what a process is called, one on who owns it.

use crate::error::Error;
use crate::options::Options;
use regex::bytes::Regex;
use regex::Error as PatternError;
use vstd::prelude::*;
use vstd::string::to_string_from_display_ensures;

verus! {

/// `regex::bytes::Regex`, a compiled expression. What it matches is known
/// through `found_in` alone.
#[verifier::external_type_specification]
#[verifier::external_body]
pub struct ExRegex(Regex);

/// `regex::Error`, the reason why a pattern does not compile. Only its text
/// is used here.
#[verifier::external_type_specification]
#[verifier::external_body]
pub struct ExPatternError(PatternError);

/// What `Regex::new` gives for a pattern: the compiled expression, or the
/// reason why there is none.
pub uninterp spec fn compiled(pattern: Seq<char>) -> Result<Regex, PatternError>;

/// Whether a compiled expression matches somewhere in a byte string, as
/// `Regex::is_match` tells.
pub uninterp spec fn found_in(re: Regex, haystack: Seq<u8>) -> bool;

/// `Regex::new` compiles a pattern with the default settings. What it gives
/// depends on the pattern alone.
pub assume_specification[ Regex::new ](re: &str) -> (r: Result<Regex, PatternError>)
    ensures
        r == compiled(re@),
;

/// `Regex::is_match` searches the whole byte string for a match. What it
/// tells depends on the expression and the bytes alone.
pub assume_specification[ Regex::is_match ](re: &Regex, haystack: &[u8]) -> (r: bool)
    ensures
        r == found_in(*re, haystack@),
;

/// Whether a filter lets a text pass: a filter without pattern lets every
/// text pass, one with a pattern those in which the pattern is found.
pub open spec fn accepts(filter: Option<Regex>, text: Seq<u8>) -> bool {
    match filter {
        None => true,
        Some(re) => found_in(re, text),
    }
}

/// The filter that a pattern of the options asks for, where the pattern
/// compiles: none without a pattern.
pub open spec fn filter_for(pattern: Option<String>) -> Option<Regex>
    recommends
        compiles(pattern),
{
    match pattern {
        None => None,
        Some(text) => Some(compiled(text@)->Ok_0),
    }
}

/// Whether a pattern of the options, if there is one, compiles.
pub open spec fn compiles(pattern: Option<String>) -> bool {
    match pattern {
        None => true,
        Some(text) => compiled(text@) is Ok,
    }
}

/// Why the patterns of the options do not both compile: the reason that the
/// process pattern gives or, where that one compiles, the user pattern.
pub open spec fn first_failure(process: Option<String>, user: Option<String>) -> PatternError
    recommends
        !compiles(process) || !compiles(user),
{
    if !compiles(process) {
        compiled(process->Some_0@)->Err_0
    } else {
        compiled(user->Some_0@)->Err_0
    }
}

/// The filters of a run. Each has a pattern or none.
pub struct Filters {
    process_filter: Option<Regex>,
    user_filter: Option<Regex>,
}

/// The patterns that the two filters hold.
pub struct FiltersView {
    pub process: Option<Regex>,
    pub user: Option<Regex>,
}

impl View for Filters {
    type V = FiltersView;

    closed spec fn view(&self) -> FiltersView {
        FiltersView { process: self.process_filter, user: self.user_filter }
    }
}

impl Filters {
    /// Filters that let everything pass.
    pub fn new() -> (r: Self)
        ensures
            r@.process is None,
            r@.user is None,
    {
        Self { process_filter: None, user_filter: None }
    }

    /// Sets the pattern of the process filter. The pattern must compile.
    pub fn process(&mut self, filter: &str) -> (r: &mut Self)
        requires
            compiled(filter@) is Ok,
        ensures
            r@.process == Some(compiled(filter@)->Ok_0),
            r@.user == old(self)@.user,
            *final(self) == *final(r),
    {
        match Regex::new(filter) {
            Ok(re) => {
                self.process_filter = Some(re);
            },
            Err(_) => {},
        }
        self
    }

    /// Sets the pattern of the user filter. The pattern must compile.
    pub fn user(&mut self, filter: &str) -> (r: &mut Self)
        requires
            compiled(filter@) is Ok,
        ensures
            r@.user == Some(compiled(filter@)->Ok_0),
            r@.process == old(self)@.process,
            *final(self) == *final(r),
    {
        match Regex::new(filter) {
            Ok(re) => {
                self.user_filter = Some(re);
            },
            Err(_) => {},
        }
        self
    }

    /// The filters that the options ask for. Where a pattern does not
    /// compile there are none, and the error says why: its text is what the
    /// reason displays that the first such pattern gives.
    pub fn from_options(options: &Options) -> (r: Result<Filters, Error>)
        ensures
            r is Ok <==> compiles(options.process_filter) && compiles(options.user_filter),
            r matches Ok(filters) ==> filters@.process == filter_for(options.process_filter)
                && filters@.user == filter_for(options.user_filter),
            r matches Err(e) ==> e matches Error::Processing(text)
                && to_string_from_display_ensures::<PatternError>(
                &first_failure(options.process_filter, options.user_filter),
                text,
            ),
    {
        let mut filters = Filters::new();
        match &options.process_filter {
            Some(pattern) => {
                match Regex::new(pattern.as_str()) {
                    Ok(_) => {
                        filters.process(pattern.as_str());
                    },
                    Err(e) => {
                        return Err(Error::Processing(e.to_string()));
                    },
                }
            },
            None => {},
        }
        match &options.user_filter {
            Some(pattern) => {
                match Regex::new(pattern.as_str()) {
                    Ok(_) => {
                        filters.user(pattern.as_str());
                    },
                    Err(e) => {
                        return Err(Error::Processing(e.to_string()));
                    },
                }
            },
            None => {},
        }
        Ok(filters)
    }

    /// Whether the process filter lets a command name or an argument text pass.
    pub fn accept_process(&self, s: &[u8]) -> (r: bool)
        ensures
            r == accepts(self@.process, s@),
            self@.process is None ==> r,
    {
        match &self.process_filter {
            None => true,
            Some(re) => re.is_match(s),
        }
    }

    /// Whether the user filter lets a user's name pass.
    pub fn accept_user(&self, s: &[u8]) -> (r: bool)
        ensures
            r == accepts(self@.user, s@),
            self@.user is None ==> r,
    {
        match &self.user_filter {
            None => true,
            Some(re) => re.is_match(s),
        }
    }
}

} // verus!
