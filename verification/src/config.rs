//! Credential profiles, and how they are shown for selection.

use vstd::prelude::*;
use vstd::string::StringExecFns;
use crate::sign::{Credential, CredentialModel};

verus! {

/// One credential profile of the configuration.
pub struct CredentialConfig {
    pub host: String,
    pub user: Option<String>,
    pub access_key: String,
    pub secret_key: String,
    /// The region to sign for; `us-east-1` where none is given.
    pub region: Option<String>,
    /// The service to sign for; `s3` where none is given.
    pub service: Option<String>,
}

/// The configuration: the list of profiles, if the file holds one.
pub struct Config {
    pub credential: Option<Vec<CredentialConfig>>,
}

/// The text of an optional setting, or `fallback` where it is not set.
pub open spec fn text_or(setting: Option<String>, fallback: Seq<char>) -> Seq<char> {
    match setting {
        Some(s) => s@,
        None => fallback,
    }
}

/// How a profile is shown in the list: host, user, and the access key in
/// brackets. A profile without a user shows an empty user.
pub open spec fn selection_text(c: CredentialConfig) -> Seq<char> {
    c.host@ + seq![' '] + text_or(c.user, Seq::empty()) + seq![' ', '('] + c.access_key@ + seq![')']
}

/// The credential that a profile signs with.
pub open spec fn credential_of(c: CredentialConfig) -> CredentialModel {
    CredentialModel {
        access_key: c.access_key@,
        secret_key: c.secret_key@,
        region: text_or(c.region, "us-east-1"@),
        service: text_or(c.service, "s3"@),
    }
}

impl CredentialConfig {
    /// The line that stands for this profile in the list.
    pub fn selection(&self) -> (out: String)
        ensures
            out@ == selection_text(*self),
    {
        let mut out = String::from_str(self.host.as_str());
        out.push(' ');
        match &self.user {
            Some(user) => {
                out.append(user.as_str());
            },
            None => {},
        }
        out.push(' ');
        out.push('(');
        out.append(self.access_key.as_str());
        out.push(')');
        assert(out@ =~= selection_text(*self));
        out
    }

    /// The credential to sign with: the keys of the profile, with its region
    /// and service, or those of a storage endpoint where it names none.
    pub fn credential(&self) -> (c: Credential)
        ensures
            c@ == credential_of(*self),
    {
        let region = match &self.region {
            Some(r) => r.as_str(),
            None => "us-east-1",
        };
        let service = match &self.service {
            Some(s) => s.as_str(),
            None => "s3",
        };
        Credential::new(self.access_key.as_str(), self.secret_key.as_str(), region, service)
    }
}

impl Config {
    /// The lines of the selection list, one per profile, in the order of the
    /// configuration.
    pub fn gen_selecitons(&self) -> (out: Vec<String>)
        requires
            self.credential is Some,
        ensures
            out.deep_view() == Seq::new(
                self.credential->0@.len(),
                |i: int| selection_text(self.credential->0@[i]),
            ),
    {
        let mut out: Vec<String> = Vec::new();
        match &self.credential {
            Some(list) => {
                let mut i: usize = 0;
                while i < list.len()
                    invariant
                        i <= list.len(),
                        out.deep_view() == Seq::new(i as nat, |k: int| selection_text(list@[k])),
                    decreases list.len() - i,
                {
                    let ghost before = out.deep_view();
                    let line = list[i].selection();
                    out.push(line);
                    assert(out.deep_view() =~= before.push(line@));
                    i += 1;
                    assert(out.deep_view() =~= Seq::new(
                        i as nat,
                        |k: int| selection_text(list@[k]),
                    ));
                }
            },
            None => {},
        }
        out
    }
}

} // verus!
