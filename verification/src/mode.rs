//! The strategies by name, and what each reports when it fails.

use vstd::prelude::*;

verus! {

/// The ways to split the players into rooms.
#[derive(Clone, Copy, Debug, PartialEq, Eq, Hash, Structural)]
pub enum BalanceMode {
    /// Everyone in one room.
    SingleRoom,
    /// Only rooms of the maximum size.
    FullRooms,
    /// Equal rooms, as few as possible.
    EvenSplit,
    /// Full rooms, with the last two rooms sharing what is left over.
    FullTailBalance,
    /// Full rooms, with several equal rooms sharing what is left over.
    FullBalance,
    /// Rooms of the minimum size, or one seat more.
    QuietRooms,
    /// Only rooms of the minimum size.
    LotsOfMatches,
    /// The first of the others, `LotsOfMatches` left out, that succeeds.
    Automatic,
}

impl BalanceMode {
    /// The text that tells a user why this strategy found no plan.
    /// `Automatic` has none of its own.
    pub open spec fn failure_text(self) -> Option<Seq<char>> {
        match self {
            BalanceMode::SingleRoom => Some("Not enough players to conduct a match"@),
            BalanceMode::FullRooms => Some("Unable to split on maximum room size"@),
            BalanceMode::EvenSplit => Some("Unable to evenly split teams"@),
            BalanceMode::FullTailBalance => Some("Unable to balance the last rooms"@),
            BalanceMode::FullBalance => Some("Unable to balance rooms"@),
            BalanceMode::QuietRooms => Some(
                "**** People need to drop out, or find more players"@,
            ),
            BalanceMode::LotsOfMatches => Some("Unable to split on lowest team size"@),
            BalanceMode::Automatic => None,
        }
    }

    /// The text to show a user when this strategy, chosen by name, found no plan.
    pub fn failure_message(&self) -> (message: Option<&'static str>)
        ensures
            match message {
                Some(text) => self.failure_text() == Some(text@),
                None => self.failure_text() is None,
            },
    {
        match self {
            BalanceMode::SingleRoom => Some("Not enough players to conduct a match"),
            BalanceMode::FullRooms => Some("Unable to split on maximum room size"),
            BalanceMode::EvenSplit => Some("Unable to evenly split teams"),
            BalanceMode::FullTailBalance => Some("Unable to balance the last rooms"),
            BalanceMode::FullBalance => Some("Unable to balance rooms"),
            BalanceMode::QuietRooms => Some("**** People need to drop out, or find more players"),
            BalanceMode::LotsOfMatches => Some("Unable to split on lowest team size"),
            BalanceMode::Automatic => None,
        }
    }
}

} // verus!
