//! Signing-credential resolution per build profile.
//!
//! For a profile, the first matching source wins: a complete externally
//! supplied pair; an externally supplied path alone, allowed only for the
//! development profile with the well-known default password; a per-profile
//! entry from project configuration; a lazily created development
//! keystore; and otherwise a hard failure, since non-development profiles
//! require an explicit keystore.

use vstd::prelude::*;

verus! {

use crate::cmd::Step;
use crate::cmd::StepView;
use crate::error::NdkError;
use crate::ndk::spec_keytool_cmd;
use crate::ndk::Key;
use crate::ndk::Ndk;
use crate::strutil::path_join;
use crate::strutil::spec_path_join;
use crate::strutil::str_eq;

broadcast use vstd::string::group_string_axioms;

/// A value that either stands on its own or is inherited from an
/// enclosing workspace.
#[derive(Clone, Debug)]
pub enum Inheritable<T> {
    Value(T),
    Inherited { workspace: bool },
}

/// A per-profile keystore entry from project configuration.
#[derive(Clone, Debug)]
pub struct Signing {
    pub path: String,
    pub keystore_password: String,
}

/// A resolved credential: the key, the steps that make its keystore
/// exist, and whether the well-known default password was substituted
/// for a missing one (worth a warning to the user).
pub struct ResolvedKey {
    pub key: Key,
    pub steps: Vec<Step>,
    pub used_default_password: bool,
}

/// Resolves the signing credential for a build profile.
///
/// `env_keystore` and `env_password` are the externally supplied pair;
/// `config_key` is the per-profile project entry, whose path is taken
/// relative to `crate_path`; `keytool` and `debug_keystore_exists` serve
/// the lazily created development keystore.  The development profile is
/// named `dev`; for any other profile an incomplete credential fails.
pub fn resolve_signing_key(
    env_keystore: &Option<String>,
    env_password: &Option<String>,
    profile: &str,
    config_key: &Option<Signing>,
    crate_path: &str,
    ndk: &Ndk,
    keytool: &str,
    debug_keystore_exists: bool,
) -> (r: Result<ResolvedKey, NdkError>)
    ensures
        (match env_keystore {
            Some(p) => match env_password {
                Some(pw) => r matches Ok(k) && k.key.path@ == p@ && k.key.password@ == pw@
                    && k.steps@ == Seq::<Step>::empty() && !k.used_default_password,
                None => if profile@ == "dev"@ {
                    r matches Ok(k) && k.key.path@ == p@ && k.key.password@ == "android"@
                        && k.steps@ == Seq::<Step>::empty() && k.used_default_password
                } else {
                    r matches Err(NdkError::MissingReleaseKey(pr)) && pr@ == profile@
                },
            },
            None => match config_key {
                Some(s) => r matches Ok(k) && k.key.path@ == spec_path_join(crate_path@, s.path@)
                    && k.key.password@ == s.keystore_password@ && k.steps@ == Seq::<Step>::empty()
                    && !k.used_default_password,
                None => if profile@ == "dev"@ {
                    r matches Ok(k) && k.key.path@ == spec_path_join(
                        ndk.user_home@,
                        "debug.keystore"@,
                    ) && k.key.password@ == "android"@ && !k.used_default_password
                        && k.steps.deep_view() == (if debug_keystore_exists {
                        seq![StepView::MakeDir(ndk.user_home@)]
                    } else {
                        seq![
                            StepView::MakeDir(ndk.user_home@),
                            StepView::Run(
                                spec_keytool_cmd(
                                    keytool@,
                                    spec_path_join(ndk.user_home@, "debug.keystore"@),
                                ),
                            ),
                        ]
                    })
                } else {
                    r matches Err(NdkError::MissingReleaseKey(pr)) && pr@ == profile@
                },
            },
        }),
{
    let is_dev = str_eq(profile, "dev");
    match env_keystore {
        Some(p) => {
            match env_password {
                Some(pw) => {
                    let none_steps: Vec<Step> = Vec::new();
                    proof {
                        assert(none_steps@ =~= Seq::<Step>::empty());
                    }
                    Ok(
                        ResolvedKey {
                            key: Key { path: p.clone(), password: pw.clone() },
                            steps: none_steps,
                            used_default_password: false,
                        },
                    )
                },
                None => {
                    if is_dev {
                        let none_steps: Vec<Step> = Vec::new();
                        proof {
                            assert(none_steps@ =~= Seq::<Step>::empty());
                        }
                        Ok(
                            ResolvedKey {
                                key: Key { path: p.clone(), password: "android".to_owned() },
                                steps: none_steps,
                                used_default_password: true,
                            },
                        )
                    } else {
                        Err(NdkError::MissingReleaseKey(profile.to_owned()))
                    }
                },
            }
        },
        None => {
            match config_key {
                Some(s) => {
                    let none_steps: Vec<Step> = Vec::new();
                    proof {
                        assert(none_steps@ =~= Seq::<Step>::empty());
                    }
                    Ok(
                        ResolvedKey {
                            key: Key {
                                path: path_join(crate_path, s.path.as_str()),
                                password: s.keystore_password.clone(),
                            },
                            steps: none_steps,
                            used_default_password: false,
                        },
                    )
                },
                None => {
                    if is_dev {
                        let kr = ndk.debug_key(keytool, debug_keystore_exists);
                        let (key, steps) = kr;
                        Ok(ResolvedKey { key, steps, used_default_password: false })
                    } else {
                        Err(NdkError::MissingReleaseKey(profile.to_owned()))
                    }
                },
            }
        },
    }
}

} // verus!
