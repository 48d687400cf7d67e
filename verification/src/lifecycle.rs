//! Life of the server process.
//!
//! An earlier process may have died with the transmitter keyed, so the radio is
//! put into receive before the first client is let in. It is put into receive
//! once more on the way out, before the serial line is given up.
use vstd::prelude::*;
use crate::command::OpCommand;

verus! {

/// How long the last command may take, in nanoseconds.
pub const LAST_UNKEY_TIMEOUT: u64 = 500_000_000;

/// What the process does next.
#[derive(Debug, Clone, Copy, PartialEq, Eq, Structural)]
pub enum LifeAction {
    /// Send a command to the radio, and go on whatever becomes of it.
    Send(OpCommand),
    /// Start polling, arbitrating and scanning, and serve clients until the
    /// process is told to stop.
    Serve,
    StopScanner,
    StopArbiter,
    StopPoller,
    CloseRadio,
}

/// The whole life, in order. The scanner stops first, so that it does not
/// retune the radio on the way out; the arbiter next, which unkeys if someone
/// holds the key; then the radio is put into receive in any case.
pub open spec fn life() -> Seq<LifeAction> {
    seq![
        LifeAction::Send(OpCommand::Receive),
        LifeAction::Serve,
        LifeAction::StopScanner,
        LifeAction::StopArbiter,
        LifeAction::Send(OpCommand::Receive),
        LifeAction::StopPoller,
        LifeAction::CloseRadio,
    ]
}

/// Where a process stands in its life.
#[derive(Debug)]
pub struct Lifecycle {
    past: u8,
}

/// The number of actions that are done.
impl View for Lifecycle {
    type V = nat;

    closed spec fn view(&self) -> nat {
        self.past as nat
    }
}

impl Lifecycle {
    #[verifier::type_invariant]
    spec fn in_range(self) -> bool {
        self.past <= life().len()
    }

    pub fn new() -> (r: Lifecycle)
        ensures
            r@ == 0,
    {
        Lifecycle { past: 0 }
    }

    /// The action that is due; `None` at the end.
    pub fn next(&self) -> (r: Option<LifeAction>)
        ensures
            self@ <= life().len(),
            r == (if self@ < life().len() {
                Some(life()[self@ as int])
            } else {
                None
            }),
    {
        proof {
            use_type_invariant(self);
        }
        if self.past == 0 || self.past == 4 {
            Some(LifeAction::Send(OpCommand::Receive))
        } else if self.past == 1 {
            Some(LifeAction::Serve)
        } else if self.past == 2 {
            Some(LifeAction::StopScanner)
        } else if self.past == 3 {
            Some(LifeAction::StopArbiter)
        } else if self.past == 5 {
            Some(LifeAction::StopPoller)
        } else if self.past == 6 {
            Some(LifeAction::CloseRadio)
        } else {
            None
        }
    }

    /// The action that was due is done.
    pub fn done(&mut self)
        requires
            old(self)@ < life().len(),
        ensures
            final(self)@ == old(self)@ + 1,
    {
        self.past = self.past + 1;
    }
}

/// Clients are served only once the radio was put into receive.
pub proof fn law_receive_before_serving(k: int)
    requires
        0 <= k < life().len(),
        life()[k] is Serve,
    ensures
        life().take(k).contains(LifeAction::Send(OpCommand::Receive)),
{
    assert(life().take(k)[0] == LifeAction::Send(OpCommand::Receive));
}

/// The serial line is given up only once the radio was put into receive, and
/// that at a time when nothing was left that could have keyed or retuned it:
/// clients, scanner and arbiter were gone.
pub proof fn law_receive_before_closing(k: int)
    requires
        0 <= k < life().len(),
        life()[k] is CloseRadio,
    ensures
        exists|j: int|
            {
                &&& 0 <= j < k
                &&& #[trigger] life()[j] == LifeAction::Send(OpCommand::Receive)
                &&& life().take(j).contains(LifeAction::Serve)
                &&& life().take(j).contains(LifeAction::StopScanner)
                &&& life().take(j).contains(LifeAction::StopArbiter)
                &&& !life().skip(j).contains(LifeAction::Serve)
            },
{
    let early = life().take(4);
    assert(life()[4] == LifeAction::Send(OpCommand::Receive));
    assert(early[1] == LifeAction::Serve);
    assert(early[2] == LifeAction::StopScanner);
    assert(early[3] == LifeAction::StopArbiter);
}

/// Of its own accord the process sends the radio nothing but the command to
/// receive.
pub proof fn law_sends_receive_only(k: int)
    requires
        0 <= k < life().len(),
    ensures
        life()[k] matches LifeAction::Send(c) ==> c == OpCommand::Receive,
{
}

/// Everything that uses the radio has stopped before the line is given up, and
/// giving it up is the last thing done; clients are served exactly once.
pub proof fn law_all_stopped_before_closing(k: int)
    requires
        0 <= k < life().len(),
    ensures
        life()[k] is CloseRadio <==> k == life().len() - 1,
        life()[k] is CloseRadio ==> {
            &&& life().take(k).contains(LifeAction::StopScanner)
            &&& life().take(k).contains(LifeAction::StopArbiter)
            &&& life().take(k).contains(LifeAction::StopPoller)
        },
        life()[k] is Serve ==> forall|j: int|
            0 <= j < life().len() && j != k ==> !((#[trigger] life()[j]) is Serve),
        life()[k] is StopArbiter ==> life().take(k).contains(LifeAction::StopScanner),
        life()[0] == LifeAction::Send(OpCommand::Receive),
{
    if k >= 3 {
        assert(life().take(k)[2] == LifeAction::StopScanner);
    }
    if k == 6 {
        assert(life().take(k)[3] == LifeAction::StopArbiter);
        assert(life().take(k)[5] == LifeAction::StopPoller);
    }
}

} // verus!
