//! A reading in its components, as it is parsed: its date if it has one,
//! hour, minute, seconds and fraction, meridiem, and zone, anchored at both
//! ends:
//! `^(?:Y-M-D[T ])?H:MI(?::S(?:\.F)?)?(?: ?[AaPp]\.?[Mm]\.?)?\s?(?:ZONE|[+-][0-9]{2}:?[0-9]{2}|[+-][0-9]{4})?$`.
//! Readings are ASCII, so `\s` is read as an ASCII space.

use vstd::prelude::*;
use crate::scan::{ap, em, eqb, hm, hm_at, is_ap, is_m, isodate, isodate_at, run_end, run_end_at, dig, dig2, dg2};
use crate::parts::span_view;
use crate::text::{bat, byte, dg, is_ascii_space};
use crate::zones::{is_zone_token, numeric_zone, zone_token};

verus! {

/// Where the components of a reading lie.
pub struct Comp {
    pub dated: bool,
    pub h_e: int,
    pub secs: bool,
    pub frac: Option<(int, int)>,
    pub mer: Option<int>,
    pub zone: Option<(int, int)>,
}

pub struct CompAt {
    pub dated: bool,
    pub h_e: usize,
    pub secs: bool,
    pub frac: Option<(usize, usize)>,
    pub mer: Option<usize>,
    pub zone: Option<(usize, usize)>,
}

impl View for CompAt {
    type V = Comp;

    open spec fn view(&self) -> Comp {
        Comp {
            dated: self.dated,
            h_e: self.h_e as int,
            secs: self.secs,
            frac: span_view(self.frac),
            mer: match self.mer {
                Some(q) => Some(q as int),
                None => None,
            },
            zone: span_view(self.zone),
        }
    }
}

pub open spec fn comp_view(r: Option<CompAt>) -> Option<Comp> {
    match r {
        Some(c) => Some(c@),
        None => None,
    }
}

/// Where the hour starts: after the date and its separator, if any.
pub open spec fn comp_start(c: Comp) -> int {
    if c.dated {
        11
    } else {
        0
    }
}

/// The components lie where a parse can take them from.
pub open spec fn comp_ok(t: Seq<u8>, c: Comp) -> bool {
    &&& (c.dated ==> isodate(t, 0))
    &&& hm(t, comp_start(c)) == Some(c.h_e + 3)
    &&& (c.h_e == comp_start(c) + 1 || c.h_e == comp_start(c) + 2)
    &&& (c.secs ==> eqb(t, c.h_e + 3, ':' as u8) && dig2(t, c.h_e + 4))
    &&& (c.frac matches Some((a, b)) ==> c.secs && a == c.h_e + 7 && a < b <= t.len() && b == run_end(t, a))
    &&& (c.mer matches Some(q) ==> 0 <= q < t.len() && is_ap(t[q]))
    &&& (c.zone matches Some((a, b)) ==> 0 <= a < b <= t.len())
}

/// A zone that is the whole rest of the reading, from `a`.
pub open spec fn zone_rest(t: Seq<u8>, a: int) -> bool {
    0 <= a < t.len() && (is_zone_token(t.subrange(a, t.len() as int)) || numeric_zone(
        t.subrange(a, t.len() as int),
    ))
}

/// `\s?(?<zone>...)?$` from `p`: the zone, if there is one.
pub open spec fn comp_tail(t: Seq<u8>, p: int) -> Option<Option<(int, int)>> {
    if 0 <= p < t.len() && is_ascii_space(t[p]) {
        if zone_rest(t, p + 1) {
            Some(Some((p + 1, t.len() as int)))
        } else if p + 1 == t.len() {
            Some(None)
        } else {
            None
        }
    } else if zone_rest(t, p) {
        Some(Some((p, t.len() as int)))
    } else if p == t.len() {
        Some(None)
    } else {
        None
    }
}

/// The clock of a reading: its date if any, and its hours, minutes,
/// seconds and fraction; where they end.
pub open spec fn comp_clock(t: Seq<u8>) -> Option<(Comp, int)> {
    let dated = isodate(t, 0) && (eqb(t, 10, 'T' as u8) || eqb(t, 10, ' ' as u8));
    let st: int = if dated {
        11
    } else {
        0
    };
    match hm(t, st) {
        None => None,
        Some(k) => {
            let secs = eqb(t, k, ':' as u8) && dig2(t, k + 1);
            let frac = secs && eqb(t, k + 3, '.' as u8) && dig(t, k + 4);
            let c = if frac {
                run_end(t, k + 4)
            } else if secs {
                k + 3
            } else {
                k
            };
            Some(
                (
                    Comp {
                        dated,
                        h_e: k - 3,
                        secs,
                        frac: if frac {
                            Some((k + 4, c))
                        } else {
                            None
                        },
                        mer: None,
                        zone: None,
                    },
                    c,
                ),
            )
        },
    }
}

/// After the clock: the meridiem, its dots, and the zone.
pub open spec fn comp_after(t: Seq<u8>, base: Comp, c: int) -> Option<Comp> {
    let q = if eqb(t, c, ' ' as u8) {
        c + 1
    } else {
        c
    };
    let r = if eqb(t, q + 1, '.' as u8) {
        q + 2
    } else {
        q + 1
    };
    let mer_ok = is_ap(byte(t, q)) && is_m(byte(t, r));
    if mer_ok && eqb(t, r + 1, '.' as u8) && comp_tail(t, r + 2) is Some {
        Some(Comp { mer: Some(q), zone: comp_tail(t, r + 2)->0, ..base })
    } else if mer_ok && comp_tail(t, r + 1) is Some {
        Some(Comp { mer: Some(q), zone: comp_tail(t, r + 1)->0, ..base })
    } else {
        match comp_tail(t, c) {
            Some(z) => Some(Comp { zone: z, ..base }),
            None => None,
        }
    }
}

/// The reading in components, if it is one.
#[verifier::opaque]
pub open spec fn components(t: Seq<u8>) -> Option<Comp> {
    match comp_clock(t) {
        None => None,
        Some((base, c)) => comp_after(t, base, c),
    }
}

fn zone_rest_at(t: &[u8], a: usize) -> (r: bool)
    ensures
        r == zone_rest(t@, a as int),
{
    if a >= t.len() {
        return false;
    }
    let n = t.len() - a;
    let z = zone_token(t, a, n);
    assert(crate::zones::zone_token_at(t@, a as int, n as int) == is_zone_token(
        t@.subrange(a as int, t@.len() as int),
    ));
    if z {
        return true;
    }
    let u = crate::text::copy_range(t, a, t.len());
    let num = crate::zones::numeric_zone_check(u.as_slice());
    num
}

fn comp_tail_at(t: &[u8], p: usize) -> (r: Option<Option<(usize, usize)>>)
    requires
        p <= t.len(),
    ensures
        match comp_tail(t@, p as int) {
            Some(z) => r matches Some(x) && span_view(x) == z,
            None => r is None,
        },
        r matches Some(Some((a, b))) ==> p <= a < b == t.len(),
{
    if p < t.len() && (t[p] == ' ' as u8 || (9 <= t[p] && t[p] <= 13)) {
        if zone_rest_at(t, p + 1) {
            Some(Some((p + 1, t.len())))
        } else if p + 1 == t.len() {
            Some(None)
        } else {
            None
        }
    } else if zone_rest_at(t, p) {
        Some(Some((p, t.len())))
    } else if p == t.len() {
        Some(None)
    } else {
        None
    }
}

fn comp_clock_at(t: &[u8]) -> (r: Option<(CompAt, usize)>)
    ensures
        match comp_clock(t@) {
            Some((b, c)) => r matches Some((x, y)) && x@ == b && y == c && x.h_e + 3 <= y <= t.len()
                && comp_ok(t@, x@),
            None => r is None,
        },
{
    let b10 = bat(t, 10, 0);
    let dated = isodate_at(t, 0) && (b10 == 'T' as u8 || b10 == ' ' as u8);
    let st: usize = if dated {
        11
    } else {
        0
    };
    let k = match hm_at(t, st) {
        None => return None,
        Some(k) => k,
    };
    let secs = bat(t, k, 0) == ':' as u8 && dg2(t, k, 1);
    let frac = secs && bat(t, k, 3) == '.' as u8 && dg(t, k, 4);
    let c = if frac {
        run_end_at(t, k + 4)
    } else if secs {
        k + 3
    } else {
        k
    };
    proof {
        crate::scan::lemma_run_end(t@, (k + 4) as int);
    }
    let base = CompAt {
        dated,
        h_e: k - 3,
        secs,
        frac: if frac {
            Some((k + 4, c))
        } else {
            None
        },
        mer: None,
        zone: None,
    };
    Some((base, c))
}

pub fn components_of(t: &[u8]) -> (r: Option<CompAt>)
    ensures
        comp_view(r) == components(t@),
        r matches Some(c) ==> comp_ok(t@, c@),
{
    reveal(components);
    let (base, c) = match comp_clock_at(t) {
        None => return None,
        Some(x) => x,
    };
    let q = if bat(t, c, 0) == ' ' as u8 {
        c + 1
    } else {
        c
    };
    if q < t.len() && ap(t[q]) {
        let r = if bat(t, q, 1) == '.' as u8 {
            q + 2
        } else {
            q + 1
        };
        if em(bat(t, r, 0)) {
            if bat(t, r, 1) == '.' as u8 {
                if let Some(z) = comp_tail_at(t, r + 2) {
                    return Some(CompAt { mer: Some(q), zone: z, ..base });
                }
            }
            if let Some(z) = comp_tail_at(t, r + 1) {
                return Some(CompAt { mer: Some(q), zone: z, ..base });
            }
        }
    }
    match comp_tail_at(t, c) {
        Some(z) => Some(CompAt { zone: z, ..base }),
        None => None,
    }
}

} // verus!
