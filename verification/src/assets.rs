//! Which archives of a platform are unpacked, in what order, and which of them may be missing.

use vstd::prelude::*;

verus! {

/// One of the archives that hold the assets of a platform.
#[derive(Clone, Copy, Debug, PartialEq, Eq, Structural)]
pub enum Archive {
    /// The program of the platform that this one depends on.
    ParentRom,
    /// The artwork of the platform.
    Artwork,
    /// The program of the platform itself.
    Rom,
}

/// What is to be done next to get the assets of a platform.
#[derive(Clone, Copy, Debug, PartialEq, Eq, Structural)]
pub enum AssetStep {
    /// This archive is to be unpacked, and its outcome added to the list.
    Extract(Archive),
    /// All that is needed is there.
    Done,
    /// This archive is needed and could not be unpacked.
    Failed(Archive),
}

/// What is to be done next, given whether the platform depends on another and how the
/// archives unpacked so far have fared. The parent's program comes first, where there is a
/// parent, then the artwork, then the platform's own program. Each is needed, but for the
/// platform's own program where there is a parent.
pub open spec fn asset_step(has_parent: bool, outcomes: Seq<bool>) -> AssetStep {
    let first = if has_parent {
        1int
    } else {
        0int
    };
    if has_parent && outcomes.len() == 0 {
        AssetStep::Extract(Archive::ParentRom)
    } else if has_parent && !outcomes[0] {
        AssetStep::Failed(Archive::ParentRom)
    } else if outcomes.len() == first {
        AssetStep::Extract(Archive::Artwork)
    } else if !outcomes[first] {
        AssetStep::Failed(Archive::Artwork)
    } else if outcomes.len() == first + 1 {
        AssetStep::Extract(Archive::Rom)
    } else if !outcomes[first + 1] && !has_parent {
        AssetStep::Failed(Archive::Rom)
    } else {
        AssetStep::Done
    }
}

/// Tells what is to be done next to get the assets of a platform.
pub fn get_assets(has_parent: bool, outcomes: &Vec<bool>) -> (res: AssetStep)
    ensures
        res == asset_step(has_parent, outcomes@),
{
    let first: usize = if has_parent {
        1
    } else {
        0
    };
    if has_parent {
        if outcomes.len() == 0 {
            return AssetStep::Extract(Archive::ParentRom);
        }
        if !outcomes[0] {
            return AssetStep::Failed(Archive::ParentRom);
        }
    }
    if outcomes.len() == first {
        return AssetStep::Extract(Archive::Artwork);
    }
    if !outcomes[first] {
        return AssetStep::Failed(Archive::Artwork);
    }
    if outcomes.len() == first + 1 {
        return AssetStep::Extract(Archive::Rom);
    }
    if !outcomes[first + 1] && !has_parent {
        return AssetStep::Failed(Archive::Rom);
    }
    AssetStep::Done
}

/// Unpacking ends after at most three archives: with three outcomes there is nothing more
/// to unpack.
pub proof fn lemma_assets_end(has_parent: bool, outcomes: Seq<bool>)
    requires
        outcomes.len() >= 3,
    ensures
        !(asset_step(has_parent, outcomes) is Extract),
{
}

/// A platform without parent needs both of its archives; one with a parent needs the
/// parent's program and the artwork, and does without a program of its own.
pub proof fn lemma_assets_needed(has_parent: bool, parent: bool, artwork: bool, rom: bool)
    ensures
        asset_step(false, seq![artwork, rom]) == if !artwork {
            AssetStep::Failed(Archive::Artwork)
        } else if !rom {
            AssetStep::Failed(Archive::Rom)
        } else {
            AssetStep::Done
        },
        asset_step(true, seq![parent, artwork, rom]) == if !parent {
            AssetStep::Failed(Archive::ParentRom)
        } else if !artwork {
            AssetStep::Failed(Archive::Artwork)
        } else {
            AssetStep::Done
        },
{
}

} // verus!
