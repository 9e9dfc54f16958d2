use vstd::prelude::*;

verus! {

/// Nanoseconds in one second.
pub const NANOS_PER_SEC: u32 = 1_000_000_000;

/// The largest number of nanoseconds a `TimeSpan` can hold.
pub open spec fn max_span_nanos() -> nat {
    u64::MAX as nat * NANOS_PER_SEC as nat + (NANOS_PER_SEC - 1) as nat
}

/// A non-negative span of time, kept exactly as whole seconds and the
/// nanoseconds below one second. Its view is the whole span in nanoseconds.
#[derive(Clone, Copy, Debug)]
pub struct TimeSpan {
    secs: u64,
    nanos: u32,
}

impl TimeSpan {
    #[verifier::type_invariant]
    spec fn nanos_below_one_second(self) -> bool {
        self.nanos < NANOS_PER_SEC
    }
}

impl View for TimeSpan {
    type V = nat;

    closed spec fn view(&self) -> nat {
        self.secs as nat * NANOS_PER_SEC as nat + self.nanos as nat
    }
}

impl TimeSpan {
    /// The empty span.
    pub fn zero() -> (r: TimeSpan)
        ensures
            r@ == 0,
    {
        TimeSpan { secs: 0, nanos: 0 }
    }

    /// The span of `secs` seconds and `nanos` nanoseconds.
    pub fn new(secs: u64, nanos: u32) -> (r: TimeSpan)
        requires
            nanos < NANOS_PER_SEC,
        ensures
            r@ == secs as nat * NANOS_PER_SEC as nat + nanos as nat,
    {
        TimeSpan { secs, nanos }
    }

    /// The span of `nanos` nanoseconds.
    pub fn from_nanos(nanos: u64) -> (r: TimeSpan)
        ensures
            r@ == nanos as nat,
    {
        let secs = nanos / (NANOS_PER_SEC as u64);
        let rest = (nanos % (NANOS_PER_SEC as u64)) as u32;
        proof {
            vstd::arithmetic::div_mod::lemma_fundamental_div_mod(nanos as int, NANOS_PER_SEC as int);
        }
        TimeSpan { secs, nanos: rest }
    }

    /// Whole seconds in the span.
    pub fn as_secs(&self) -> (r: u64)
        ensures
            r as nat == self@ / NANOS_PER_SEC as nat,
    {
        proof {
            use_type_invariant(self);
            lemma_split(self.secs as nat, self.nanos as nat);
        }
        self.secs
    }

    /// Nanoseconds beyond the whole seconds of the span.
    pub fn subsec_nanos(&self) -> (r: u32)
        ensures
            r as nat == self@ % NANOS_PER_SEC as nat,
    {
        proof {
            use_type_invariant(self);
            lemma_split(self.secs as nat, self.nanos as nat);
        }
        self.nanos
    }

    /// The sum of two spans, or `None` where it exceeds the largest span.
    pub fn checked_add(&self, other: &TimeSpan) -> (r: Option<TimeSpan>)
        ensures
            r is Some <==> self@ + other@ <= max_span_nanos(),
            r matches Some(s) ==> s@ == self@ + other@,
    {
        proof {
            use_type_invariant(self);
            use_type_invariant(other);
        }
        let mut secs: u64 = match self.secs.checked_add(other.secs) {
            Some(s) => s,
            None => {
                proof {
                    assert(self@ + other@ > max_span_nanos()) by (nonlinear_arith)
                        requires
                            self.secs as nat + other.secs as nat > u64::MAX as nat,
                            self@ == self.secs as nat * 1_000_000_000 + self.nanos as nat,
                            other@ == other.secs as nat * 1_000_000_000 + other.nanos as nat,
                            max_span_nanos() == u64::MAX as nat * 1_000_000_000 + 999_999_999,
                    ;
                }
                return None;
            },
        };
        let mut nanos: u32 = self.nanos + other.nanos;
        if nanos >= NANOS_PER_SEC {
            nanos = nanos - NANOS_PER_SEC;
            if secs == u64::MAX {
                proof {
                    assert(self@ + other@ > max_span_nanos()) by (nonlinear_arith)
                        requires
                            self.secs as nat + other.secs as nat == u64::MAX as nat,
                            self.nanos + other.nanos >= 1_000_000_000,
                            self@ == self.secs as nat * 1_000_000_000 + self.nanos as nat,
                            other@ == other.secs as nat * 1_000_000_000 + other.nanos as nat,
                            max_span_nanos() == u64::MAX as nat * 1_000_000_000 + 999_999_999,
                    ;
                }
                return None;
            }
            secs = secs + 1;
        }
        let r = TimeSpan { secs, nanos };
        proof {
            assert(r@ == self@ + other@) by (nonlinear_arith)
                requires
                    r@ == secs as nat * 1_000_000_000 + nanos as nat,
                    self@ == self.secs as nat * 1_000_000_000 + self.nanos as nat,
                    other@ == other.secs as nat * 1_000_000_000 + other.nanos as nat,
                    secs as nat * 1_000_000_000 + nanos as nat == (self.secs as nat + other.secs as nat)
                        * 1_000_000_000 + self.nanos as nat + other.nanos as nat,
            ;
            lemma_parts_bounded(secs as nat, nanos as nat);
        }
        Some(r)
    }

    /// The sum of two spans that fits the largest span.
    pub fn add(&self, other: &TimeSpan) -> (r: TimeSpan)
        requires
            self@ + other@ <= max_span_nanos(),
        ensures
            r@ == self@ + other@,
    {
        match self.checked_add(other) {
            Some(s) => s,
            // The precondition rules this arm out.
            None => TimeSpan::zero(),
        }
    }
}

/// A span made of at most `u64::MAX` seconds and less than a second more fits
/// the largest span.
proof fn lemma_parts_bounded(secs: nat, nanos: nat)
    requires
        secs <= u64::MAX,
        nanos < NANOS_PER_SEC,
    ensures
        secs * NANOS_PER_SEC as nat + nanos <= max_span_nanos(),
{
    assert(secs * 1_000_000_000 <= u64::MAX as nat * 1_000_000_000) by (nonlinear_arith)
        requires
            secs <= u64::MAX,
    ;
}

/// Whole seconds and the nanoseconds below one second split a span exactly.
proof fn lemma_split(secs: nat, nanos: nat)
    requires
        nanos < NANOS_PER_SEC,
    ensures
        (secs * NANOS_PER_SEC as nat + nanos) / NANOS_PER_SEC as nat == secs,
        (secs * NANOS_PER_SEC as nat + nanos) % NANOS_PER_SEC as nat == nanos,
{
    vstd::arithmetic::div_mod::lemma_fundamental_div_mod_converse(
        (secs * NANOS_PER_SEC as nat + nanos) as int,
        NANOS_PER_SEC as int,
        secs as int,
        nanos as int,
    );
}

} // verus!
