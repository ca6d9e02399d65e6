//! Sequential planning of bucket-configuration facet updates.
//!
//! Each present facet directive becomes exactly one gateway write, in the
//! fixed order public access, versioning, encryption, tags. An unknown
//! encryption mode stops the plan at its place in that order: the writes
//! planned before it stand (the front end performs them), the tag write is
//! not planned, and the error is reported. There is no rollback.

use vstd::prelude::*;

use crate::strutil::str_eq;

verus! {

/// The optional facet directives of one configuration operation. Absent
/// fields leave the corresponding remote setting untouched; an empty tag
/// sequence plans no tag write.
#[derive(Debug)]
pub struct ConfigurationFacets {
    pub public: Option<bool>,
    pub versioning: Option<bool>,
    pub encryption: Option<String>,
    pub tags: Vec<(String, String)>,
}

/// A public-access posture: the four block flags of the remote store.
#[derive(Clone, Copy, Debug, PartialEq, Eq, Structural)]
pub struct PublicAccessBlockConfig {
    pub block_public_acls: bool,
    pub ignore_public_acls: bool,
    pub block_public_policy: bool,
    pub restrict_public_buckets: bool,
}

/// A versioning status as the remote store understands it.
#[derive(Clone, Copy, Debug, PartialEq, Eq, Structural)]
pub enum VersioningStatus {
    Enabled,
    Suspended,
}

/// A server-side encryption algorithm of the closed accepted set.
#[derive(Clone, Copy, Debug, PartialEq, Eq, Structural)]
pub enum EncryptionAlgorithm {
    Aes256,
    AwsKms,
}

/// One planned gateway write.
#[derive(Debug)]
pub enum FacetAction {
    PublicAccessBlock(PublicAccessBlockConfig),
    Versioning(VersioningStatus),
    Encryption(EncryptionAlgorithm),
    Tagging(Vec<(String, String)>),
}

/// An encryption mode outside the accepted set; holds the offending mode.
#[derive(Debug)]
pub struct EncryptionModeError {
    pub mode: String,
}

impl EncryptionModeError {
    /// A human-readable description of the rejection.
    pub fn message(&self) -> (r: String)
        ensures
            r@ == "Invalid encryption mode. Use 'AES256' or 'aws:kms'"@,
    {
        "Invalid encryption mode. Use 'AES256' or 'aws:kms'".to_owned()
    }
}

/// The posture written for a `public` directive: `true` clears all four
/// block flags (fully permissive), `false` sets all four (fully
/// restrictive).
pub open spec fn spec_public_access_config(is_public: bool) -> PublicAccessBlockConfig {
    PublicAccessBlockConfig {
        block_public_acls: !is_public,
        ignore_public_acls: !is_public,
        block_public_policy: !is_public,
        restrict_public_buckets: !is_public,
    }
}

/// Maps a `public` directive to the posture written to the remote store.
pub fn public_access_config(is_public: bool) -> (r: PublicAccessBlockConfig)
    ensures
        r == spec_public_access_config(is_public),
{
    PublicAccessBlockConfig {
        block_public_acls: !is_public,
        ignore_public_acls: !is_public,
        block_public_policy: !is_public,
        restrict_public_buckets: !is_public,
    }
}

/// Maps a `versioning` directive: `true` enables, `false` suspends.
pub fn versioning_status(enabled: bool) -> (r: VersioningStatus)
    ensures
        r == (if enabled {
            VersioningStatus::Enabled
        } else {
            VersioningStatus::Suspended
        }),
{
    if enabled {
        VersioningStatus::Enabled
    } else {
        VersioningStatus::Suspended
    }
}

/// The algorithm denoted by `mode`, if `mode` is one of the two accepted
/// identifiers.
pub open spec fn spec_encryption_mode(mode: Seq<char>) -> Option<EncryptionAlgorithm> {
    if mode == "AES256"@ {
        Some(EncryptionAlgorithm::Aes256)
    } else if mode == "aws:kms"@ {
        Some(EncryptionAlgorithm::AwsKms)
    } else {
        None
    }
}

/// Maps an encryption mode to its algorithm; every identifier outside the
/// accepted set is an error, never a default.
pub fn map_encryption_mode(mode: &str) -> (r: Result<EncryptionAlgorithm, EncryptionModeError>)
    ensures
        r is Ok <==> spec_encryption_mode(mode@) is Some,
        r matches Ok(a) ==> Some(a) == spec_encryption_mode(mode@),
        r matches Err(e) ==> e.mode@ == mode@,
{
    if str_eq(mode, "AES256") {
        Ok(EncryptionAlgorithm::Aes256)
    } else if str_eq(mode, "aws:kms") {
        Ok(EncryptionAlgorithm::AwsKms)
    } else {
        Err(EncryptionModeError { mode: mode.to_owned() })
    }
}

/// Whether the facets name an encryption mode outside the accepted set.
pub open spec fn spec_encryption_fails(f: ConfigurationFacets) -> bool {
    match f.encryption {
        Some(m) => spec_encryption_mode(m@) is None,
        None => false,
    }
}

/// The planned gateway writes for a facet bundle, in the fixed order public
/// access, versioning, encryption, tags. An unknown encryption mode stops
/// the plan before the encryption write; an empty tag sequence plans no tag
/// write.
pub open spec fn spec_facet_actions(f: ConfigurationFacets) -> Seq<FacetAction> {
    let a0 = Seq::<FacetAction>::empty();
    let a1 = match f.public {
        Some(p) => a0.push(FacetAction::PublicAccessBlock(spec_public_access_config(p))),
        None => a0,
    };
    let a2 = match f.versioning {
        Some(v) => a1.push(
            FacetAction::Versioning(
                if v {
                    VersioningStatus::Enabled
                } else {
                    VersioningStatus::Suspended
                },
            ),
        ),
        None => a1,
    };
    let a3 = match f.encryption {
        Some(m) => match spec_encryption_mode(m@) {
            Some(alg) => a2.push(FacetAction::Encryption(alg)),
            None => a2,
        },
        None => a2,
    };
    if !spec_encryption_fails(f) && f.tags.len() > 0 {
        a3.push(FacetAction::Tagging(f.tags))
    } else {
        a3
    }
}

/// Plans the facet writes the front end must perform, in order, and the
/// error that ends the sequence, if any. The planned writes are exactly
/// `spec_facet_actions`; an error is reported exactly when the facets name
/// an unknown encryption mode, and the writes planned up to that point
/// still stand.
pub fn plan_facets(facets: ConfigurationFacets) -> (r: (Vec<FacetAction>, Option<
    EncryptionModeError,
>))
    ensures
        r.0@ == spec_facet_actions(facets),
        r.1 is Some <==> spec_encryption_fails(facets),
        r.1 matches Some(e) ==> (facets.encryption matches Some(m) && e.mode@ == m@),
{
    let ConfigurationFacets { public, versioning, encryption, tags } = facets;
    let mut actions: Vec<FacetAction> = Vec::new();
    if let Some(p) = public {
        actions.push(FacetAction::PublicAccessBlock(public_access_config(p)));
    }
    if let Some(v) = versioning {
        actions.push(FacetAction::Versioning(versioning_status(v)));
    }
    let mut err: Option<EncryptionModeError> = None;
    if let Some(m) = encryption {
        match map_encryption_mode(m.as_str()) {
            Ok(alg) => {
                actions.push(FacetAction::Encryption(alg));
            },
            Err(e) => {
                err = Some(e);
            },
        }
    }
    if err.is_none() && tags.len() > 0 {
        actions.push(FacetAction::Tagging(tags));
    }
    proof {
        assert(actions@ =~= spec_facet_actions(facets));
    }
    (actions, err)
}

} // verus!
