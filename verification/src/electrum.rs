//! Commands that bring a wallet up to date from an Electrum server.

use vstd::prelude::*;

use crate::block::TxHeight;

verus! {

/// The networks that there are servers for.
#[derive(Clone, Copy, Debug, PartialEq, Eq, Structural)]
pub enum Network {
    Bitcoin,
    Testnet,
    Regtest,
    Signet,
}

impl Network {
    /// The server of the network.
    pub open spec fn url(self) -> Seq<char> {
        match self {
            Network::Bitcoin => "ssl://electrum.blockstream.info:50002"@,
            Network::Testnet => "ssl://electrum.blockstream.info:60002"@,
            Network::Regtest => "ssl://localhost:60401"@,
            Network::Signet => "tcp://signet-electrumx.wakiyamap.dev:50001"@,
        }
    }

    /// The server of the network.
    pub fn electrum_url(self) -> (url: &'static str)
        ensures
            url@ == self.url(),
    {
        match self {
            Network::Bitcoin => "ssl://electrum.blockstream.info:50002",
            Network::Testnet => "ssl://electrum.blockstream.info:60002",
            Network::Regtest => "ssl://localhost:60401",
            Network::Signet => "tcp://signet-electrumx.wakiyamap.dev:50001",
        }
    }

    /// Whether the server's certificate has to be for its domain.
    pub fn validates_domain(self) -> (validates: bool)
        ensures
            validates == (self == Network::Bitcoin),
    {
        match self {
            Network::Bitcoin => true,
            _ => false,
        }
    }
}

/// How many scripts a request asks for, unless told otherwise.
pub const DEFAULT_BATCH_SIZE: usize = 25;

/// How large a gap ends a scan, unless told otherwise.
pub const DEFAULT_STOP_GAP: usize = 5;

/// How a server is asked.
#[derive(Clone, Copy, Debug, PartialEq, Eq, Structural)]
pub struct ScanOption {
    /// Set batch size for each script_history call to electrum client
    pub batch_size: usize,
}

impl Default for ScanOption {
    fn default() -> (option: Self)
        ensures
            option.batch_size == DEFAULT_BATCH_SIZE,
    {
        ScanOption { batch_size: DEFAULT_BATCH_SIZE }
    }
}

/// What the server is asked about.
#[derive(Clone, Copy, Debug, PartialEq, Eq, Structural)]
pub enum ElectrumCommands {
    /// Scans the addresses in the wallet.
    Scan {
        /// When a gap this large has been found for a keychain it will stop.
        stop_gap: usize,
        scan_option: ScanOption,
    },
    /// Scans particular addresses.
    Sync {
        /// Scan all the unused addresses
        unused: bool,
        /// Scan the script addresses that have unspent outputs
        unspent: bool,
        /// Scan every address that you have derived
        all: bool,
        scan_option: ScanOption,
    },
}

/// Which addresses are scanned.
#[derive(Clone, Copy, Debug, PartialEq, Eq, Structural)]
pub struct SyncTargets {
    pub unused: bool,
    pub unspent: bool,
    pub all: bool,
}

impl SyncTargets {
    /// What is scanned when this is asked for: the unused and the unspent addresses if nothing
    /// is, and only all of them at once if all are.
    pub open spec fn resolved(self) -> SyncTargets {
        if self.all {
            SyncTargets { unused: false, unspent: false, all: true }
        } else if !self.unused && !self.unspent {
            SyncTargets { unused: true, unspent: true, all: false }
        } else {
            self
        }
    }

    /// What is scanned when this is asked for.
    pub fn resolve(self) -> (targets: SyncTargets)
        ensures
            targets == self.resolved(),
            targets.all == self.all,
            targets.unused == (!self.all && (self.unused || !self.unspent)),
            targets.unspent == (!self.all && (self.unspent || !self.unused)),
    {
        let mut targets = self;
        if !(self.all || self.unused || self.unspent) {
            targets.unused = true;
            targets.unspent = true;
        } else if self.all {
            targets.unused = false;
            targets.unspent = false;
        }
        targets
    }

    /// The scripts to scan: the unused ones, then all of them, then those with unspent outputs,
    /// as far as they are targets.
    pub fn select_scripts(
        self,
        unused: Vec<Vec<u8>>,
        all: Vec<Vec<u8>>,
        unspent: Vec<Vec<u8>>,
    ) -> (scripts: Vec<Vec<u8>>)
        ensures
            scripts@ == part(self.unused, unused@) + part(self.all, all@) + part(
                self.unspent,
                unspent@,
            ),
            scripts@ == (if self.unused {
                unused@
            } else {
                Seq::empty()
            }) + (if self.all {
                all@
            } else {
                Seq::empty()
            }) + (if self.unspent {
                unspent@
            } else {
                Seq::empty()
            }),
    {
        let mut unused = unused;
        let mut all = all;
        let mut unspent = unspent;
        let mut scripts: Vec<Vec<u8>> = Vec::new();
        if self.unused {
            scripts.append(&mut unused);
        }
        if self.all {
            scripts.append(&mut all);
        }
        if self.unspent {
            scripts.append(&mut unspent);
        }
        scripts
    }
}

/// Something is always scanned; where all addresses are, none is scanned a second time as unused or
/// unspent; and asking for exactly what is scanned changes nothing.
pub proof fn law_resolved_targets(targets: SyncTargets)
    ensures
        targets.resolved().unused || targets.resolved().unspent || targets.resolved().all,
        targets.resolved().all ==> !targets.resolved().unused && !targets.resolved().unspent,
        targets.resolved().resolved() == targets.resolved(),
{
}

/// `scripts` if they are wanted.
pub open spec fn part(wanted: bool, scripts: Seq<Vec<u8>>) -> Seq<Vec<u8>> {
    if wanted {
        scripts
    } else {
        Seq::empty()
    }
}

/// Where a server has seen a transaction that it reports at `height`: only heights above zero are
/// heights of blocks.
pub fn reported_height(height: i32) -> (seen: TxHeight)
    ensures
        seen == if height > 0 {
            TxHeight::Confirmed(height as u32)
        } else {
            TxHeight::Unconfirmed
        },
{
    if height > 0 {
        TxHeight::Confirmed(height as u32)
    } else {
        TxHeight::Unconfirmed
    }
}

/// Whether the last `stop_gap` scripts that were scanned have no history. `active` says of each
/// scanned script of a keychain, from the first on, whether it has one.
pub fn gap_reached(active: &Vec<bool>, stop_gap: usize) -> (reached: bool)
    ensures
        reached == (active.len() >= stop_gap && forall|i: int|
            active.len() - stop_gap <= i < active.len() ==> !#[trigger] active[i]),
{
    if active.len() < stop_gap {
        return false;
    }
    let start: usize = active.len() - stop_gap;
    for i in start..active.len()
        invariant
            start == active.len() - stop_gap,
            forall|j: int| start <= j < i ==> !#[trigger] active[j],
    {
        if active[i] {
            return false;
        }
    }
    true
}

/// The index of the last script that has a history, if there is one.
pub fn last_active_index(active: &Vec<bool>) -> (last: Option<usize>)
    ensures
        match last {
            Some(i) => i < active.len() && active[i as int] && forall|j: int|
                i < j < active.len() ==> !#[trigger] active[j],
            None => forall|j: int| 0 <= j < active.len() ==> !#[trigger] active[j],
        },
{
    let mut i: usize = active.len();
    while i > 0
        invariant
            i <= active.len(),
            forall|j: int| i <= j < active.len() ==> !#[trigger] active[j],
        decreases i,
    {
        i -= 1;
        if active[i] {
            return Some(i);
        }
    }
    None
}

/// What is scanned when targets are asked for: every derived script, once, if all are; the unused
/// ones and then the unspent ones if nothing is; else just what is asked for, in that order.
pub proof fn law_scanned_scripts(
    targets: SyncTargets,
    unused: Seq<Vec<u8>>,
    all: Seq<Vec<u8>>,
    unspent: Seq<Vec<u8>>,
)
    ensures
        ({
            let resolved = targets.resolved();
            let scanned = part(resolved.unused, unused) + part(resolved.all, all) + part(
                resolved.unspent,
                unspent,
            );
            &&& targets.all ==> scanned == all
            &&& !targets.all && targets.unused == targets.unspent ==> scanned == unused + unspent
            &&& !targets.all && targets.unused && !targets.unspent ==> scanned == unused
            &&& !targets.all && !targets.unused && targets.unspent ==> scanned == unspent
        }),
{
    let resolved = targets.resolved();
    let scanned = part(resolved.unused, unused) + part(resolved.all, all) + part(
        resolved.unspent,
        unspent,
    );
    if targets.all {
        assert(scanned =~= all);
    } else if targets.unused == targets.unspent {
        assert(scanned =~= unused + unspent);
    } else if targets.unused {
        assert(scanned =~= unused);
    } else {
        assert(scanned =~= unspent);
    }
}

} // verus!
