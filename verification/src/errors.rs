use vstd::prelude::*;

verus! {

/// Contract error codes shared by every NovaFund contract.
#[derive(Clone, Copy, Debug, PartialEq, Eq, Structural)]
pub enum Error {
    NotInit,
    AlreadyInit,
    Unauthorized,
    InvInput,
    NotFound,
    // Project errors
    ProjNotAct,
    ProjExists,
    GoalNotRch,
    DeadlinePass,
    InvStatus,
    // Escrow errors
    EscrowInsuf,
    MstoneNotAppr,
    MstoneInv,
    NotValidator,
    AlreadyVoted,
    Paused,
    ResTooEarly,
    UpgNotSched,
    UpgTooEarly,
    UpgReqPause,
    // Dispute resolution errors
    DispNF,
    MstoneContest,
    JurorReg,
    JurorStakeL,
    NotJuror,
    JurorAct,
    VoteNA,
    RevealNA,
    InvReveal,
    AppealWinCl,
    MaxAppeals,
    AppealFeeL,
    ConflictInt,
    // Distribution errors
    InsufFunds,
    InvDist,
    NoClaim,
    DistFail,
    // Subscription errors
    SubNotAct,
    InvSubPer,
    SubExists,
    WithdrLock,
    // Reputation errors
    RepErr,
    BadgeNotErn,
    UserAlreadyReg,
    BadgeAw,
    UserNotReg,
    // Governance errors
    PropNotAct,
    InsufVote,
    PropExc,
    QuorumNR,
}

impl Error {
    /// The numeric code under which the error is reported to clients.
    pub open spec fn spec_code(self) -> u32 {
        match self {
            Error::NotInit => 1,
            Error::AlreadyInit => 2,
            Error::Unauthorized => 3,
            Error::InvInput => 4,
            Error::NotFound => 5,
            Error::ProjNotAct => 6,
            Error::ProjExists => 7,
            Error::GoalNotRch => 8,
            Error::DeadlinePass => 9,
            Error::InvStatus => 10,
            Error::EscrowInsuf => 11,
            Error::MstoneNotAppr => 12,
            Error::MstoneInv => 13,
            Error::NotValidator => 14,
            Error::AlreadyVoted => 15,
            Error::Paused => 16,
            Error::ResTooEarly => 17,
            Error::UpgNotSched => 18,
            Error::UpgTooEarly => 19,
            Error::UpgReqPause => 20,
            Error::DispNF => 21,
            Error::MstoneContest => 22,
            Error::JurorReg => 23,
            Error::JurorStakeL => 24,
            Error::NotJuror => 25,
            Error::JurorAct => 26,
            Error::VoteNA => 27,
            Error::RevealNA => 28,
            Error::InvReveal => 29,
            Error::AppealWinCl => 30,
            Error::MaxAppeals => 31,
            Error::AppealFeeL => 32,
            Error::ConflictInt => 33,
            Error::InsufFunds => 34,
            Error::InvDist => 35,
            Error::NoClaim => 36,
            Error::DistFail => 37,
            Error::SubNotAct => 38,
            Error::InvSubPer => 39,
            Error::SubExists => 40,
            Error::WithdrLock => 41,
            Error::RepErr => 42,
            Error::BadgeNotErn => 43,
            Error::UserAlreadyReg => 44,
            Error::BadgeAw => 45,
            Error::UserNotReg => 46,
            Error::PropNotAct => 47,
            Error::InsufVote => 48,
            Error::PropExc => 49,
            Error::QuorumNR => 50,
        }
    }

    /// Returns the numeric error code (1 through 50).
    pub fn code(&self) -> (c: u32)
        ensures
            c == self.spec_code(),
            1 <= c <= 50,
    {
        match self {
            Error::NotInit => 1,
            Error::AlreadyInit => 2,
            Error::Unauthorized => 3,
            Error::InvInput => 4,
            Error::NotFound => 5,
            Error::ProjNotAct => 6,
            Error::ProjExists => 7,
            Error::GoalNotRch => 8,
            Error::DeadlinePass => 9,
            Error::InvStatus => 10,
            Error::EscrowInsuf => 11,
            Error::MstoneNotAppr => 12,
            Error::MstoneInv => 13,
            Error::NotValidator => 14,
            Error::AlreadyVoted => 15,
            Error::Paused => 16,
            Error::ResTooEarly => 17,
            Error::UpgNotSched => 18,
            Error::UpgTooEarly => 19,
            Error::UpgReqPause => 20,
            Error::DispNF => 21,
            Error::MstoneContest => 22,
            Error::JurorReg => 23,
            Error::JurorStakeL => 24,
            Error::NotJuror => 25,
            Error::JurorAct => 26,
            Error::VoteNA => 27,
            Error::RevealNA => 28,
            Error::InvReveal => 29,
            Error::AppealWinCl => 30,
            Error::MaxAppeals => 31,
            Error::AppealFeeL => 32,
            Error::ConflictInt => 33,
            Error::InsufFunds => 34,
            Error::InvDist => 35,
            Error::NoClaim => 36,
            Error::DistFail => 37,
            Error::SubNotAct => 38,
            Error::InvSubPer => 39,
            Error::SubExists => 40,
            Error::WithdrLock => 41,
            Error::RepErr => 42,
            Error::BadgeNotErn => 43,
            Error::UserAlreadyReg => 44,
            Error::BadgeAw => 45,
            Error::UserNotReg => 46,
            Error::PropNotAct => 47,
            Error::InsufVote => 48,
            Error::PropExc => 49,
            Error::QuorumNR => 50,
        }
    }
}

} // verus!
