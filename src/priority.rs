use vstd::prelude::*;

verus! {

/// Scheduling priority level that can be requested for the launched program.
#[derive(Debug, Clone, Copy, PartialEq, Eq, Structural)]
pub enum Priority {
    Low,
    BelowNormal,
    Normal,
    AboveNormal,
    High,
    Realtime,
}

/// The OS priority class value of each level (the Windows `*_PRIORITY_CLASS`
/// process creation flags).
pub open spec fn class_of(p: Priority) -> u32 {
    match p {
        Priority::Low => 0x40,
        Priority::BelowNormal => 0x4000,
        Priority::Normal => 0x20,
        Priority::AboveNormal => 0x8000,
        Priority::High => 0x80,
        Priority::Realtime => 0x100,
    }
}

/// The command-line name of each level.
pub open spec fn name_of(p: Priority) -> Seq<char> {
    match p {
        Priority::Low => "low"@,
        Priority::BelowNormal => "below-normal"@,
        Priority::Normal => "normal"@,
        Priority::AboveNormal => "above-normal"@,
        Priority::High => "high"@,
        Priority::Realtime => "realtime"@,
    }
}

pub open spec fn is_ascii_upper(c: char) -> bool {
    'A' <= c && c <= 'Z'
}

/// `a` and `b` are the same character once ASCII letters are lowered.
pub open spec fn same_ignoring_case(a: char, b: char) -> bool {
    ||| a == b
    ||| is_ascii_upper(a) && b as u32 == a as u32 + 32
    ||| is_ascii_upper(b) && a as u32 == b as u32 + 32
}

/// `s` and `t` are equal up to ASCII case.
pub open spec fn eq_ignoring_case(s: Seq<char>, t: Seq<char>) -> bool {
    &&& s.len() == t.len()
    &&& forall|i: int| 0 <= i < s.len() ==> same_ignoring_case(#[trigger] s[i], t[i])
}

/// Relies on str::eq_ignore_ascii_case: true exactly when the two strings
/// are equal after mapping `A`..=`Z` to `a`..=`z`.
#[verifier::external_body]
fn eq_ignore_ascii_case(a: &str, b: &str) -> (r: bool)
    ensures
        r == eq_ignoring_case(a@, b@),
{
    a.eq_ignore_ascii_case(b)
}

impl Priority {
    /// The OS priority class value for this level.
    pub fn class(self) -> (r: u32)
        ensures
            r == class_of(self),
    {
        match self {
            Priority::Low => 0x40,
            Priority::BelowNormal => 0x4000,
            Priority::Normal => 0x20,
            Priority::AboveNormal => 0x8000,
            Priority::High => 0x80,
            Priority::Realtime => 0x100,
        }
    }

    /// The command-line name of this level.
    pub fn name(self) -> (r: &'static str)
        ensures
            r@ == name_of(self),
    {
        match self {
            Priority::Low => "low",
            Priority::BelowNormal => "below-normal",
            Priority::Normal => "normal",
            Priority::AboveNormal => "above-normal",
            Priority::High => "high",
            Priority::Realtime => "realtime",
        }
    }

    /// The level whose name is `s`, ignoring ASCII case; `None` when no
    /// level has that name.
    pub fn from_name(s: &str) -> (r: Option<Priority>)
        ensures
            r matches Some(p) ==> eq_ignoring_case(s@, name_of(p)),
            r is None ==> forall|p: Priority| !eq_ignoring_case(s@, #[trigger] name_of(p)),
    {
        if eq_ignore_ascii_case(s, "low") {
            Some(Priority::Low)
        } else if eq_ignore_ascii_case(s, "below-normal") {
            Some(Priority::BelowNormal)
        } else if eq_ignore_ascii_case(s, "normal") {
            Some(Priority::Normal)
        } else if eq_ignore_ascii_case(s, "above-normal") {
            Some(Priority::AboveNormal)
        } else if eq_ignore_ascii_case(s, "high") {
            Some(Priority::High)
        } else if eq_ignore_ascii_case(s, "realtime") {
            Some(Priority::Realtime)
        } else {
            proof {
                assert forall|p: Priority| !eq_ignoring_case(s@, #[trigger] name_of(p)) by {
                    match p {
                        Priority::Low => {},
                        Priority::BelowNormal => {},
                        Priority::Normal => {},
                        Priority::AboveNormal => {},
                        Priority::High => {},
                        Priority::Realtime => {},
                    }
                }
            }
            None
        }
    }
}

/// Distinct levels have distinct OS priority classes.
pub proof fn lemma_class_injective(p: Priority, q: Priority)
    requires
        class_of(p) == class_of(q),
    ensures
        p == q,
{
}

/// A string names at most one level, even ignoring ASCII case.
pub proof fn lemma_name_unique(s: Seq<char>, p: Priority, q: Priority)
    requires
        eq_ignoring_case(s, name_of(p)),
        eq_ignoring_case(s, name_of(q)),
    ensures
        p == q,
{
    reveal_strlit("low");
    reveal_strlit("below-normal");
    reveal_strlit("normal");
    reveal_strlit("above-normal");
    reveal_strlit("high");
    reveal_strlit("realtime");
    if p != q {
        let np = name_of(p);
        let nq = name_of(q);
        assert(np.len() == nq.len());
        assert(same_ignoring_case(s[0], np[0]));
        assert(same_ignoring_case(s[0], nq[0]));
    }
}

/// Every level is found again from its own name.
pub proof fn lemma_name_round_trip(p: Priority)
    ensures
        eq_ignoring_case(name_of(p), name_of(p)),
        forall|q: Priority| eq_ignoring_case(name_of(p), #[trigger] name_of(q)) ==> q == p,
{
    assert forall|q: Priority| eq_ignoring_case(name_of(p), #[trigger] name_of(q)) implies q == p by {
        lemma_name_unique(name_of(p), p, q);
    }
}

} // verus!
