//! Filter settings of the audio path.
use vstd::prelude::*;

verus! {

/// Filter parameters. They are set by requests; the audio path looks at the
/// generation counter at the top of each block.
#[derive(Debug, Clone, Copy, PartialEq, Eq, Structural)]
pub struct FilterConfig {
    pub hp_enabled: bool,
    pub lp_enabled: bool,
    pub gate_enabled: bool,
    /// High-pass corner in tenths of a Hz.
    pub hp_fc: u32,
    /// Low-pass corner in tenths of a Hz.
    pub lp_fc: u32,
    /// Gate threshold in tenths of a dB below full scale.
    pub gate_db: u32,
    pub generation: u64,
}

/// A request to change some of the parameters. Numbers are in the units of
/// [`FilterConfig`], rounded.
#[derive(Debug, Clone, Copy, PartialEq, Eq, Structural)]
pub struct FilterReq {
    pub hp_enabled: Option<bool>,
    pub lp_enabled: Option<bool>,
    pub gate_enabled: Option<bool>,
    pub hp_fc: Option<i64>,
    pub lp_fc: Option<i64>,
    pub gate_db: Option<u32>,
}

/// A number within bounds.
pub open spec fn bounded(v: i64, lo: u32, hi: u32) -> u32 {
    if v < lo {
        lo
    } else if v > hi {
        hi
    } else {
        v as u32
    }
}

/// The new value where there is one, else the old one.
pub open spec fn or_keep<T>(new: Option<T>, kept: T) -> T {
    match new {
        Some(v) => v,
        None => kept,
    }
}

/// Whether a request changes anything.
pub open spec fn asks_change(req: FilterReq) -> bool {
    req.hp_enabled is Some || req.lp_enabled is Some || req.gate_enabled is Some || req.hp_fc is Some
        || req.lp_fc is Some || req.gate_db is Some
}

/// The next generation; the counter starts over at its end.
pub open spec fn next_generation(g: u64) -> u64 {
    if g == u64::MAX {
        0
    } else {
        (g + 1) as u64
    }
}

/// The parameters after a request. The high-pass corner stays within 20 and
/// 8000 Hz, the low-pass corner within 100 and 20000 Hz.
pub open spec fn filtered(cfg: FilterConfig, req: FilterReq) -> FilterConfig {
    FilterConfig {
        hp_enabled: or_keep(req.hp_enabled, cfg.hp_enabled),
        lp_enabled: or_keep(req.lp_enabled, cfg.lp_enabled),
        gate_enabled: or_keep(req.gate_enabled, cfg.gate_enabled),
        hp_fc: match req.hp_fc {
            Some(v) => bounded(v, 200, 80_000),
            None => cfg.hp_fc,
        },
        lp_fc: match req.lp_fc {
            Some(v) => bounded(v, 1_000, 200_000),
            None => cfg.lp_fc,
        },
        gate_db: or_keep(req.gate_db, cfg.gate_db),
        generation: if asks_change(req) {
            next_generation(cfg.generation)
        } else {
            cfg.generation
        },
    }
}

fn clamp_to(v: i64, lo: u32, hi: u32) -> (r: u32)
    requires
        lo <= hi,
    ensures
        r == bounded(v, lo, hi),
{
    if v < lo as i64 {
        lo
    } else if v > hi as i64 {
        hi
    } else {
        v as u32
    }
}

impl FilterConfig {
    /// A 300-3000 Hz band, with noise gating off.
    pub fn new_voice_defaults() -> (r: FilterConfig)
        ensures
            r == (FilterConfig {
                hp_enabled: true,
                lp_enabled: true,
                gate_enabled: false,
                hp_fc: 3000,
                lp_fc: 30000,
                gate_db: 400,
                generation: 1,
            }),
    {
        FilterConfig {
            hp_enabled: true,
            lp_enabled: true,
            gate_enabled: false,
            hp_fc: 3000,
            lp_fc: 30000,
            gate_db: 400,
            generation: 1,
        }
    }

    /// Tell the audio path that something has changed.
    pub fn bump(&mut self)
        ensures
            *final(self) == (FilterConfig {
                generation: next_generation(old(self).generation),
                ..*old(self)
            }),
    {
        self.generation = if self.generation == u64::MAX {
            0
        } else {
            self.generation + 1
        };
    }
}

/// Apply a request.
pub fn apply_filter_req(cfg: &mut FilterConfig, req: FilterReq)
    ensures
        *final(cfg) == filtered(*old(cfg), req),
{
    let mut changed = false;
    if let Some(v) = req.hp_enabled {
        cfg.hp_enabled = v;
        changed = true;
    }
    if let Some(v) = req.lp_enabled {
        cfg.lp_enabled = v;
        changed = true;
    }
    if let Some(v) = req.gate_enabled {
        cfg.gate_enabled = v;
        changed = true;
    }
    if let Some(v) = req.hp_fc {
        cfg.hp_fc = clamp_to(v, 200, 80_000);
        changed = true;
    }
    if let Some(v) = req.lp_fc {
        cfg.lp_fc = clamp_to(v, 1_000, 200_000);
        changed = true;
    }
    if let Some(v) = req.gate_db {
        cfg.gate_db = v;
        changed = true;
    }
    if changed {
        cfg.bump();
    }
}

/// A request that changes something is always noticed: the generation differs
/// afterwards. One that changes nothing leaves everything as it is.
pub proof fn law_changes_are_noticed(cfg: FilterConfig, req: FilterReq)
    ensures
        asks_change(req) <==> filtered(cfg, req).generation != cfg.generation,
        !asks_change(req) ==> filtered(cfg, req) == cfg,
{
}

/// Whatever is asked for, the corners stay where the filters can work, once
/// they are there.
pub proof fn law_corners_stay_in_range(cfg: FilterConfig, req: FilterReq)
    requires
        200 <= cfg.hp_fc <= 80_000,
        1_000 <= cfg.lp_fc <= 200_000,
    ensures
        200 <= filtered(cfg, req).hp_fc <= 80_000,
        1_000 <= filtered(cfg, req).lp_fc <= 200_000,
{
}

/// A request sets what it names and keeps what it does not: switches and the
/// gate are taken as they are, corners too as long as they are within range,
/// and otherwise the nearer end of the range.
pub proof fn law_request_taken(cfg: FilterConfig, req: FilterReq)
    ensures
        ({
            let after = filtered(cfg, req);
            &&& req.hp_enabled matches Some(v) ==> after.hp_enabled == v
            &&& req.hp_enabled is None ==> after.hp_enabled == cfg.hp_enabled
            &&& req.lp_enabled matches Some(v) ==> after.lp_enabled == v
            &&& req.lp_enabled is None ==> after.lp_enabled == cfg.lp_enabled
            &&& req.gate_enabled matches Some(v) ==> after.gate_enabled == v
            &&& req.gate_enabled is None ==> after.gate_enabled == cfg.gate_enabled
            &&& req.gate_db matches Some(v) ==> after.gate_db == v
            &&& req.gate_db is None ==> after.gate_db == cfg.gate_db
            &&& req.hp_fc is None ==> after.hp_fc == cfg.hp_fc
            &&& req.lp_fc is None ==> after.lp_fc == cfg.lp_fc
            &&& req.hp_fc matches Some(v) ==> {
                &&& 200 <= v <= 80_000 ==> after.hp_fc == v
                &&& v < 200 ==> after.hp_fc == 200
                &&& v > 80_000 ==> after.hp_fc == 80_000
            }
            &&& req.lp_fc matches Some(v) ==> {
                &&& 1_000 <= v <= 200_000 ==> after.lp_fc == v
                &&& v < 1_000 ==> after.lp_fc == 1_000
                &&& v > 200_000 ==> after.lp_fc == 200_000
            }
        }),
{
}

/// The generations count up one by one and start over at 2^64.
pub proof fn law_generations(g: u64)
    ensures
        next_generation(g) as int == (g + 1) % 0x1_0000_0000_0000_0000,
{
}

} // verus!
