//! Protocol versioning and negotiation.
//!
//! Every frame header carries a `major.minor` version. Peers are compatible
//! when their major versions match. A newer minor version may add frame types
//! or flags but never changes the meaning of what is already defined, so an
//! older peer can talk to a newer one at the older minor level.

use crate::protocol::error::{Error, Result};
use crate::text;
use vstd::prelude::*;

verus! {

/// A `major.minor` protocol version, ordered by major, then by minor.
#[derive(Debug, Clone, Copy, PartialEq, Eq, PartialOrd, Ord, Hash, Structural)]
pub struct ProtocolVersion {
    /// The major version. Peers must agree on this exactly.
    pub major: u8,
    /// The minor version. Higher minors are backward compatible.
    pub minor: u8,
}

/// The wire-format version implemented by this build.
pub fn protocol_version() -> (v: ProtocolVersion)
    ensures
        v == current_version(),
{
    ProtocolVersion { major: 1, minor: 0 }
}

/// The wire-format version implemented by this build.
pub open spec fn current_version() -> ProtocolVersion {
    ProtocolVersion { major: 1, minor: 0 }
}

/// Every protocol version this build can speak, for use with [`negotiate`].
pub fn supported_versions() -> (v: Vec<ProtocolVersion>)
    ensures
        v@ == seq![current_version()],
{
    let mut v: Vec<ProtocolVersion> = Vec::new();
    v.push(protocol_version());
    assert(v@ =~= seq![current_version()]);
    v
}

impl ProtocolVersion {
    /// `self` stands at or below `other` in the version order.
    pub open spec fn at_most(self, other: ProtocolVersion) -> bool {
        self.major < other.major || (self.major == other.major && self.minor <= other.minor)
    }

    /// The lower of two versions.
    pub open spec fn lower(self, other: ProtocolVersion) -> ProtocolVersion {
        if self.at_most(other) {
            self
        } else {
            other
        }
    }

    /// Creates a version from its parts.
    pub fn new(major: u8, minor: u8) -> (v: ProtocolVersion)
        ensures
            v == (ProtocolVersion { major, minor }),
    {
        ProtocolVersion { major, minor }
    }

    /// Returns `true` when `self` can communicate with `other`: their major
    /// versions are the same.
    pub fn is_compatible_with(self, other: ProtocolVersion) -> (r: bool)
        ensures
            r == (self.major == other.major),
    {
        self.major == other.major
    }

    /// Returns the lower of two compatible versions, so that neither side uses
    /// a feature the other cannot parse.
    pub fn common_with(self, other: ProtocolVersion) -> (r: Result<ProtocolVersion>)
        ensures
            r == if self.major == other.major {
                Ok(self.lower(other))
            } else {
                Err(Error::NoCommonVersion)
            },
    {
        if self.is_compatible_with(other) {
            if self.minor <= other.minor {
                Ok(self)
            } else {
                Ok(other)
            }
        } else {
            Err(Error::NoCommonVersion)
        }
    }

    /// The version in writing.
    pub open spec fn text(self) -> Seq<char> {
        text::decimal(self.major as nat) + "."@ + text::decimal(self.minor as nat)
    }

    /// Returns the version in writing.
    pub fn to_string(&self) -> (s: String)
        ensures
            s@ == self.text(),
    {
        let mut s = String::new();
        text::push_decimal(&mut s, self.major as u128);
        s.append(".");
        text::push_decimal(&mut s, self.minor as u128);
        assert(s@ =~= self.text());
        s
    }
}

/// The two peers can agree on `v`: some version of each is compatible with one
/// of the other, and `v` is the lower of the two.
pub open spec fn offers(
    local: Seq<ProtocolVersion>,
    remote: Seq<ProtocolVersion>,
    v: ProtocolVersion,
) -> bool {
    exists|i: int, j: int|
        0 <= i < local.len() && 0 <= j < remote.len() && (#[trigger] local[i]).major == (
        #[trigger] remote[j]).major && v == local[i].lower(remote[j])
}

/// `v` is the highest version that the two peers can agree on.
pub open spec fn is_highest_common(
    local: Seq<ProtocolVersion>,
    remote: Seq<ProtocolVersion>,
    v: ProtocolVersion,
) -> bool {
    &&& offers(local, remote, v)
    &&& forall|w: ProtocolVersion| #[trigger] offers(local, remote, w) ==> w.at_most(v)
}

/// Selects the highest version supported by both peers.
///
/// Both slices are unordered sets of supported versions. The negotiation fails
/// when the two sets share no compatible version, so also when either is empty.
pub fn negotiate(local: &[ProtocolVersion], remote: &[ProtocolVersion]) -> (r: Result<
    ProtocolVersion,
>)
    ensures
        match r {
            Ok(v) => is_highest_common(local@, remote@, v),
            Err(e) => e == Error::NoCommonVersion && forall|v: ProtocolVersion|
                !offers(local@, remote@, v),
        },
{
    let mut best: Option<ProtocolVersion> = None;
    let mut i: usize = 0;
    while i < local.len()
        invariant
            i <= local@.len(),
            best is None ==> forall|a: int, b: int|
                0 <= a < i && 0 <= b < remote@.len() ==> (#[trigger] local@[a]).major != (
                #[trigger] remote@[b]).major,
            best matches Some(v) ==> offers(local@, remote@, v) && forall|a: int, b: int|
                0 <= a < i && 0 <= b < remote@.len() && (#[trigger] local@[a]).major == (
                #[trigger] remote@[b]).major ==> local@[a].lower(remote@[b]).at_most(v),
        decreases local@.len() - i,
    {
        let ours = local[i];
        let mut j: usize = 0;
        while j < remote.len()
            invariant
                i < local@.len(),
                j <= remote@.len(),
                ours == local@[i as int],
                best is None ==> forall|a: int, b: int|
                    ((0 <= a < i && 0 <= b < remote@.len()) || (a == i && 0 <= b < j)) ==> (
                    #[trigger] local@[a]).major != (#[trigger] remote@[b]).major,
                best matches Some(v) ==> offers(local@, remote@, v) && forall|a: int, b: int|
                    ((0 <= a < i && 0 <= b < remote@.len()) || (a == i && 0 <= b < j)) && (
                    #[trigger] local@[a]).major == (#[trigger] remote@[b]).major
                        ==> local@[a].lower(remote@[b]).at_most(v),
            decreases remote@.len() - j,
        {
            let theirs = remote[j];
            match ours.common_with(theirs) {
                Ok(v) => {
                    let better = match best {
                        None => true,
                        Some(b) => b.major < v.major || (b.major == v.major && b.minor < v.minor),
                    };
                    assert(offers(local@, remote@, v)) by {
                        assert(local@[i as int].major == remote@[j as int].major);
                    }
                    if better {
                        best = Some(v);
                    }
                },
                Err(_) => {},
            }
            j += 1;
        }
        i += 1;
    }
    match best {
        Some(v) => Ok(v),
        None => Err(Error::NoCommonVersion),
    }
}

/// Negotiation gives both peers the same answer.
pub proof fn negotiation_is_symmetric(
    local: Seq<ProtocolVersion>,
    remote: Seq<ProtocolVersion>,
    v: ProtocolVersion,
)
    ensures
        offers(local, remote, v) == offers(remote, local, v),
        is_highest_common(local, remote, v) == is_highest_common(remote, local, v),
{
    assert forall|w: ProtocolVersion| offers(local, remote, w) == offers(remote, local, w) by {
        offers_is_symmetric(local, remote, w);
        offers_is_symmetric(remote, local, w);
    }
}

proof fn offers_is_symmetric(
    local: Seq<ProtocolVersion>,
    remote: Seq<ProtocolVersion>,
    v: ProtocolVersion,
)
    ensures
        offers(local, remote, v) ==> offers(remote, local, v),
{
    if offers(local, remote, v) {
        let (i, j) = choose|i: int, j: int|
            0 <= i < local.len() && 0 <= j < remote.len() && (#[trigger] local[i]).major == (
            #[trigger] remote[j]).major && v == local[i].lower(remote[j]);
        assert(remote[j].major == local[i].major && v == remote[j].lower(local[i]));
    }
}

/// There is at most one highest common version.
pub proof fn negotiation_is_unambiguous(
    local: Seq<ProtocolVersion>,
    remote: Seq<ProtocolVersion>,
    v: ProtocolVersion,
    w: ProtocolVersion,
)
    requires
        is_highest_common(local, remote, v),
        is_highest_common(local, remote, w),
    ensures
        v == w,
{
}

/// What two peers agree on: a major version that both have, at the lower of two minor
/// versions that they have of it; and no pair of their versions would give a higher
/// one, by the major version first.
pub proof fn agreement_is_the_highest_shared(
    local: Seq<ProtocolVersion>,
    remote: Seq<ProtocolVersion>,
    v: ProtocolVersion,
    a: int,
    b: int,
)
    requires
        is_highest_common(local, remote, v),
        0 <= a < local.len(),
        0 <= b < remote.len(),
        local[a].major == remote[b].major,
    ensures
        exists|i: int, j: int|
            {
                &&& 0 <= i < local.len() && 0 <= j < remote.len()
                &&& (#[trigger] local[i]).major == v.major
                &&& (#[trigger] remote[j]).major == v.major
                &&& v.minor <= local[i].minor && v.minor <= remote[j].minor
                &&& v.minor == local[i].minor || v.minor == remote[j].minor
            },
        v.major >= local[a].major,
        v.major == local[a].major ==> v.minor >= local[a].minor || v.minor >= remote[b].minor,
{
    let w = local[a].lower(remote[b]);
    assert(offers(local, remote, w));
    let (i, j) = choose|i: int, j: int|
        0 <= i < local.len() && 0 <= j < remote.len() && (#[trigger] local[i]).major == (
        #[trigger] remote[j]).major && v == local[i].lower(remote[j]);
    assert(local[i].major == v.major && remote[j].major == v.major);
}

/// Peers that share a major version can agree, and peers that share none cannot.
pub proof fn agreement_takes_a_shared_major(
    local: Seq<ProtocolVersion>,
    remote: Seq<ProtocolVersion>,
)
    ensures
        (exists|v: ProtocolVersion| offers(local, remote, v)) <==> (exists|i: int, j: int|
            0 <= i < local.len() && 0 <= j < remote.len() && (#[trigger] local[i]).major == (
            #[trigger] remote[j]).major),
{
    if exists|i: int, j: int|
        0 <= i < local.len() && 0 <= j < remote.len() && (#[trigger] local[i]).major == (
        #[trigger] remote[j]).major {
        let (i, j) = choose|i: int, j: int|
            0 <= i < local.len() && 0 <= j < remote.len() && (#[trigger] local[i]).major == (
            #[trigger] remote[j]).major;
        assert(offers(local, remote, local[i].lower(remote[j])));
    }
}

/// This build speaks version 1.0, and so with every peer that has version 1 in some
/// minor, at 1.0.
pub proof fn this_build_speaks_version_one(remote: Seq<ProtocolVersion>, v: ProtocolVersion)
    requires
        is_highest_common(seq![current_version()], remote, v),
    ensures
        v.major == 1,
        v.minor == 0,
{
}

} // verus!
