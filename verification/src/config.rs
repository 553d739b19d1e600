//! The configuration store's verified half: the credential record and the
//! merge policy applied when a candidate record is saved over a previously
//! stored one.  Reading and writing the on-disk file is plain I/O and stays
//! outside the library.

use vstd::prelude::*;

verus! {

/// The value a credential field takes when a candidate record is saved over
/// a stored one: an empty candidate field keeps the stored value; any other
/// candidate field overwrites it.
pub open spec fn spec_merge_field(candidate: Seq<char>, previous: Seq<char>) -> Seq<char> {
    if candidate.len() == 0 && previous.len() > 0 {
        previous
    } else {
        candidate
    }
}

/// Three opaque credential strings for the translation service.
pub struct Config {
    api_key: String,
    project_id: String,
    access_token: String,
}

impl Config {
    pub closed spec fn spec_api_key(&self) -> Seq<char> {
        self.api_key@
    }

    pub closed spec fn spec_project_id(&self) -> Seq<char> {
        self.project_id@
    }

    pub closed spec fn spec_access_token(&self) -> Seq<char> {
        self.access_token@
    }

    pub fn new(api_key: String, project_id: String, access_token: String) -> (r: Config)
        ensures
            r.spec_api_key() == api_key@,
            r.spec_project_id() == project_id@,
            r.spec_access_token() == access_token@,
    {
        Config { api_key, project_id, access_token }
    }

    pub fn get_api_key(&self) -> (r: String)
        ensures
            r@ == self.spec_api_key(),
    {
        self.api_key.clone()
    }

    pub fn get_project_id(&self) -> (r: String)
        ensures
            r@ == self.spec_project_id(),
    {
        self.project_id.clone()
    }

    pub fn get_access_token(&self) -> (r: String)
        ensures
            r@ == self.spec_access_token(),
    {
        self.access_token.clone()
    }

    /// True exactly when every credential field is empty.  A candidate for
    /// which this holds carries nothing to save and is rejected before any
    /// stored configuration could be touched.
    pub fn all_empty(&self) -> (r: bool)
        ensures
            r == (self.spec_api_key().len() == 0 && self.spec_project_id().len() == 0
                && self.spec_access_token().len() == 0),
    {
        self.api_key.as_str().is_empty() && self.project_id.as_str().is_empty()
            && self.access_token.as_str().is_empty()
    }

    /// Applies the save-time merge policy: every field of this candidate
    /// that is empty takes the previously stored value, so an explicit
    /// empty string never erases a stored credential.
    pub fn merge_previous(&mut self, previous: &Config)
        ensures
            final(self).spec_api_key() == spec_merge_field(
                old(self).spec_api_key(),
                previous.spec_api_key(),
            ),
            final(self).spec_project_id() == spec_merge_field(
                old(self).spec_project_id(),
                previous.spec_project_id(),
            ),
            final(self).spec_access_token() == spec_merge_field(
                old(self).spec_access_token(),
                previous.spec_access_token(),
            ),
    {
        if self.api_key.as_str().is_empty() && !previous.api_key.as_str().is_empty() {
            self.api_key = previous.api_key.clone();
        }
        if self.project_id.as_str().is_empty() && !previous.project_id.as_str().is_empty() {
            self.project_id = previous.project_id.clone();
        }
        if self.access_token.as_str().is_empty() && !previous.access_token.as_str().is_empty() {
            self.access_token = previous.access_token.clone();
        }
    }
}

/// A candidate field that holds characters always wins the merge, and an
/// empty candidate field always yields the stored value, whatever it is.
pub proof fn lemma_merge_field_cases(candidate: Seq<char>, previous: Seq<char>)
    ensures
        candidate.len() > 0 ==> spec_merge_field(candidate, previous) == candidate,
        candidate.len() == 0 ==> spec_merge_field(candidate, previous) == previous,
{
    if candidate.len() == 0 && previous.len() == 0 {
        assert(candidate =~= previous);
    }
}

/// Saving an all-empty candidate cannot alter any stored credential: the
/// merge hands back the previously stored record, field for field.
pub proof fn lemma_all_empty_merge_keeps_previous(candidate: Config, previous: Config)
    requires
        candidate.spec_api_key().len() == 0,
        candidate.spec_project_id().len() == 0,
        candidate.spec_access_token().len() == 0,
    ensures
        spec_merge_field(candidate.spec_api_key(), previous.spec_api_key())
            == previous.spec_api_key(),
        spec_merge_field(candidate.spec_project_id(), previous.spec_project_id())
            == previous.spec_project_id(),
        spec_merge_field(candidate.spec_access_token(), previous.spec_access_token())
            == previous.spec_access_token(),
{
    lemma_merge_field_cases(candidate.spec_api_key(), previous.spec_api_key());
    lemma_merge_field_cases(candidate.spec_project_id(), previous.spec_project_id());
    lemma_merge_field_cases(candidate.spec_access_token(), previous.spec_access_token());
}

} // verus!
