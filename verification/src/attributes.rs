//! The attribute synchronizer: reconciles the external asset's key-value
//! attribute set with the internal accrual state on every stake and unstake
//! transition. The engine manages two reserved keys, `staked` (the session
//! start as a stringified timestamp, `"0"` when not staked) and
//! `staked_time` (stringified cumulative seconds); all other entries pass
//! through untouched.

use vstd::prelude::*;
use vstd::string::StringExecFns;

use crate::errors::StakingError;
use crate::text::i64_dec;
use crate::text::i64_to_dec_string;
use crate::text::parse_i64;
use crate::text::parse_i64_spec;
use crate::text::str_eq;

verus! {

/// One key-value entry of the external asset's attribute set.
#[derive(Debug)]
pub struct Attribute {
    pub key: String,
    pub value: String,
}

impl View for Attribute {
    type V = (Seq<char>, Seq<char>);

    open spec fn view(&self) -> (Seq<char>, Seq<char>) {
        (self.key@, self.value@)
    }
}

/// The key-value view of an attribute list.
pub open spec fn kv_view(s: Seq<Attribute>) -> Seq<(Seq<char>, Seq<char>)> {
    s.map(|i: int, a: Attribute| a@)
}

/// The key-value view of an optional attribute set; an absent set reads as
/// an empty list.
pub open spec fn opt_kv_view(attrs: Option<Vec<Attribute>>) -> Seq<(Seq<char>, Seq<char>)> {
    match attrs {
        Some(v) => kv_view(v@),
        None => Seq::empty(),
    }
}

/// Whether some entry marks the asset as currently staked: a `staked` key
/// whose value is not `"0"`.
pub open spec fn shows_staked(kvs: Seq<(Seq<char>, Seq<char>)>) -> bool {
    exists|i: int| 0 <= i < kvs.len() && (#[trigger] kvs[i]).0 == "staked"@ && kvs[i].1 != "0"@
}

/// Whether the list holds an entry under the given key.
pub open spec fn has_key(kvs: Seq<(Seq<char>, Seq<char>)>, key: Seq<char>) -> bool {
    exists|i: int| 0 <= i < kvs.len() && (#[trigger] kvs[i]).0 == key
}

/// The attribute list with every `staked` entry overwritten by the session
/// start, all other entries untouched.
pub open spec fn restamped_list(kvs: Seq<(Seq<char>, Seq<char>)>, now: i64) -> Seq<
    (Seq<char>, Seq<char>),
> {
    Seq::new(
        kvs.len(),
        |i: int|
            if kvs[i].0 == "staked"@ {
                (kvs[i].0, i64_dec(now as int))
            } else {
                kvs[i]
            },
    )
}

/// The attribute list after a successful stake at time `now`: every
/// `staked` entry overwritten with the timestamp, a `staked` entry appended
/// when none existed, and a zero `staked_time` entry appended when none
/// existed. Applied to an empty list this is exactly the initial list a
/// fresh attribute set is created with.
pub open spec fn staked_attr_list(kvs: Seq<(Seq<char>, Seq<char>)>, now: i64) -> Seq<
    (Seq<char>, Seq<char>),
> {
    let replaced = restamped_list(kvs, now);
    let with_staked = if has_key(kvs, "staked"@) {
        replaced
    } else {
        replaced.push(("staked"@, i64_dec(now as int)))
    };
    if has_key(kvs, "staked_time"@) {
        with_staked
    } else {
        with_staked.push(("staked_time"@, "0"@))
    }
}

/// Entries carried through an unstake: every `staked` entry reset to `"0"`,
/// every `staked_time` entry removed (the caller re-appends the new total),
/// everything else kept in order.
pub open spec fn scrubbed_attr_list(kvs: Seq<(Seq<char>, Seq<char>)>) -> Seq<
    (Seq<char>, Seq<char>),
>
    decreases kvs.len(),
{
    if kvs.len() == 0 {
        Seq::empty()
    } else {
        let front = scrubbed_attr_list(kvs.drop_last());
        let last = kvs.last();
        if last.0 == "staked"@ {
            front.push((last.0, "0"@))
        } else if last.0 == "staked_time"@ {
            front
        } else {
            front.push(last)
        }
    }
}

/// The cumulative staked time the attribute set records: the last
/// `staked_time` entry read as an integer, zero when there is none, and
/// nothing when any `staked_time` entry fails to parse.
pub open spec fn staked_time_total(kvs: Seq<(Seq<char>, Seq<char>)>) -> Option<int>
    decreases kvs.len(),
{
    if kvs.len() == 0 {
        Some(0)
    } else {
        let front = staked_time_total(kvs.drop_last());
        let last = kvs.last();
        if front is None {
            None
        } else if last.0 == "staked_time"@ {
            parse_i64_spec(last.1)
        } else {
            front
        }
    }
}

/// The attribute list after a successful unstake that brings the cumulative
/// staked time to `new_total`.
pub open spec fn unstaked_attr_list(kvs: Seq<(Seq<char>, Seq<char>)>, new_total: int) -> Seq<
    (Seq<char>, Seq<char>),
> {
    scrubbed_attr_list(kvs).push(("staked_time"@, i64_dec(new_total)))
}

/// The two reserved keys are different words.
proof fn lemma_reserved_keys_distinct()
    ensures
        "staked"@ != "staked_time"@,
{
    reveal_strlit("staked");
    reveal_strlit("staked_time");
    assert("staked"@.len() == 6);
    assert("staked_time"@.len() == 11);
}

/// Applies the stake transition to an asset's attribute set, failing with
/// `AlreadyStaked` exactly when the set already shows the asset staked. An
/// absent set yields the initial list the attribute set is created with.
pub fn stake_attributes(attrs: &Option<Vec<Attribute>>, now: i64) -> (r: Result<
    Vec<Attribute>,
    StakingError,
>)
    ensures
        match r {
            Ok(list) => !shows_staked(opt_kv_view(*attrs)) && kv_view(list@) == staked_attr_list(
                opt_kv_view(*attrs),
                now,
            ),
            Err(e) => e == StakingError::AlreadyStaked && shows_staked(opt_kv_view(*attrs)),
        },
{
    let ghost kvs = opt_kv_view(*attrs);
    let now_str = i64_to_dec_string(now);
    let mut out: Vec<Attribute> = Vec::new();
    let mut found_staked = false;
    let mut found_time = false;
    match attrs {
        None => {
            proof {
                assert(kvs =~= Seq::empty());
            }
        },
        Some(v) => {
            let mut i: usize = 0;
            while i < v.len()
                invariant
                    0 <= i <= v@.len(),
                    kvs == kv_view(v@),
                    kvs == opt_kv_view(*attrs),
                    kvs.len() == v@.len(),
                    now_str@ == i64_dec(now as int),
                    forall|j: int| 0 <= j < i ==> !((#[trigger] kvs[j]).0 == "staked"@ && kvs[j].1
                        != "0"@),
                    found_staked == has_key(kvs.subrange(0, i as int), "staked"@),
                    found_time == has_key(kvs.subrange(0, i as int), "staked_time"@),
                    kv_view(out@) =~= Seq::new(
                        i as nat,
                        |j: int|
                            if kvs[j].0 == "staked"@ {
                                (kvs[j].0, i64_dec(now as int))
                            } else {
                                kvs[j]
                            },
                    ),
                decreases v@.len() - i,
            {
                let ghost out0 = out@;
                let a = &v[i];
                proof {
                    lemma_reserved_keys_distinct();
                    assert(kvs[i as int] == a@);
                }
                if str_eq(a.key.as_str(), "staked") {
                    if !str_eq(a.value.as_str(), "0") {
                        proof {
                            assert(shows_staked(kvs)) by {
                                assert(kvs[i as int].0 == "staked"@ && kvs[i as int].1 != "0"@);
                            }
                        }
                        return Err(StakingError::AlreadyStaked);
                    }
                    out.push(Attribute { key: a.key.clone(), value: now_str.clone() });
                    found_staked = true;
                    proof {
                        assert(has_key(kvs.subrange(0, i + 1), "staked"@)) by {
                            assert(kvs.subrange(0, i + 1)[i as int].0 == "staked"@);
                        }
                    }
                } else {
                    if str_eq(a.key.as_str(), "staked_time") {
                        found_time = true;
                        proof {
                            assert(has_key(kvs.subrange(0, i + 1), "staked_time"@)) by {
                                assert(kvs.subrange(0, i + 1)[i as int].0 == "staked_time"@);
                            }
                        }
                    }
                    out.push(Attribute { key: a.key.clone(), value: a.value.clone() });
                }
                proof {
                    assert(kv_view(out@) =~= kv_view(out0).push(out@.last()@));
                    if !has_key(kvs.subrange(0, i + 1), "staked"@) {
                        assert(forall|j: int|
                            0 <= j < i + 1 ==> (#[trigger] kvs.subrange(0, i as int + 1)[j]).0
                                != "staked"@);
                        assert(!has_key(kvs.subrange(0, i as int), "staked"@)) by {
                            assert(forall|j: int|
                                0 <= j < i ==> kvs.subrange(0, i as int)[j] == kvs.subrange(
                                    0,
                                    i as int + 1,
                                )[j]);
                        }
                    }
                    if !has_key(kvs.subrange(0, i + 1), "staked_time"@) {
                        assert(forall|j: int|
                            0 <= j < i + 1 ==> (#[trigger] kvs.subrange(0, i as int + 1)[j]).0
                                != "staked_time"@);
                        assert(!has_key(kvs.subrange(0, i as int), "staked_time"@)) by {
                            assert(forall|j: int|
                                0 <= j < i ==> kvs.subrange(0, i as int)[j] == kvs.subrange(
                                    0,
                                    i as int + 1,
                                )[j]);
                        }
                    }
                }
                i += 1;
            }
            proof {
                assert(kvs.subrange(0, kvs.len() as int) =~= kvs);
            }
        },
    }
    if !found_staked {
        out.push(Attribute { key: String::from_str("staked"), value: now_str });
    }
    if !found_time {
        out.push(Attribute { key: String::from_str("staked_time"), value: String::from_str("0") });
    }
    proof {
        assert(kv_view(out@) =~= staked_attr_list(kvs, now));
    }
    Ok(out)
}

/// Applies the unstake transition to an asset's attribute set: resets the
/// staked flag, removes the running total, and re-appends it increased by
/// the session duration. Fails with `InvalidTimestamp` exactly when a
/// stored `staked_time` value does not parse.
pub fn unstake_attributes(attrs: &Vec<Attribute>, duration: i64) -> (r: Result<
    Vec<Attribute>,
    StakingError,
>)
    requires
        staked_time_total(kv_view(attrs@)) matches Some(t) ==> i64::MIN <= t + duration
            <= i64::MAX,
    ensures
        match r {
            Ok(list) => staked_time_total(kv_view(attrs@)) is Some && kv_view(list@)
                == unstaked_attr_list(
                kv_view(attrs@),
                staked_time_total(kv_view(attrs@))->0 + duration,
            ),
            Err(e) => e == StakingError::InvalidTimestamp && staked_time_total(kv_view(attrs@))
                is None,
        },
{
    let ghost kvs = kv_view(attrs@);
    let mut out: Vec<Attribute> = Vec::new();
    let mut total: i64 = 0;
    let mut i: usize = 0;
    while i < attrs.len()
        invariant
            0 <= i <= attrs@.len(),
            kvs == kv_view(attrs@),
            kvs.len() == attrs@.len(),
            staked_time_total(kvs.subrange(0, i as int)) == Some(total as int),
            kv_view(out@) =~= scrubbed_attr_list(kvs.subrange(0, i as int)),
            staked_time_total(kvs) matches Some(t) ==> i64::MIN <= t + duration <= i64::MAX,
        decreases attrs@.len() - i,
    {
        let ghost out0 = out@;
        let ghost prefix = kvs.subrange(0, i as int);
        let a = &attrs[i];
        proof {
            lemma_reserved_keys_distinct();
            assert(kvs[i as int] == a@);
            assert(kvs.subrange(0, i + 1).drop_last() =~= prefix);
            assert(kvs.subrange(0, i + 1).last() == kvs[i as int]);
        }
        if str_eq(a.key.as_str(), "staked") {
            proof {
                reveal_strlit("0");
            }
            out.push(Attribute { key: a.key.clone(), value: String::from_str("0") });
            proof {
                assert(kv_view(out@) =~= kv_view(out0).push(out@.last()@));
                assert(kv_view(out@) =~= scrubbed_attr_list(kvs.subrange(0, i + 1)));
            }
        } else if str_eq(a.key.as_str(), "staked_time") {
            match parse_i64(a.value.as_str()) {
                Some(v) => {
                    total = v;
                },
                None => {
                    proof {
                        lemma_staked_time_total_extends_none(kvs, i as int);
                    }
                    return Err(StakingError::InvalidTimestamp);
                },
            }
            proof {
                assert(kv_view(out@) =~= scrubbed_attr_list(kvs.subrange(0, i + 1)));
            }
        } else {
            out.push(Attribute { key: a.key.clone(), value: a.value.clone() });
            proof {
                assert(kv_view(out@) =~= kv_view(out0).push(out@.last()@));
                assert(kv_view(out@) =~= scrubbed_attr_list(kvs.subrange(0, i + 1)));
            }
        }
        i += 1;
    }
    proof {
        assert(kvs.subrange(0, kvs.len() as int) =~= kvs);
    }
    let new_total = total + duration;
    let total_str = i64_to_dec_string(new_total);
    out.push(Attribute { key: String::from_str("staked_time"), value: total_str });
    proof {
        assert(kv_view(out@) =~= unstaked_attr_list(kvs, total as int + duration as int));
    }
    Ok(out)
}

/// Restamping the `staked` entries does not touch the cumulative time the
/// attribute set records.
proof fn lemma_restamped_keeps_total(kvs: Seq<(Seq<char>, Seq<char>)>, now: i64)
    ensures
        staked_time_total(restamped_list(kvs, now)) == staked_time_total(kvs),
    decreases kvs.len(),
{
    lemma_reserved_keys_distinct();
    if kvs.len() > 0 {
        lemma_restamped_keeps_total(kvs.drop_last(), now);
        assert(restamped_list(kvs, now).drop_last() =~= restamped_list(kvs.drop_last(), now));
        assert(restamped_list(kvs, now).last() == (if kvs.last().0 == "staked"@ {
            (kvs.last().0, i64_dec(now as int))
        } else {
            kvs.last()
        }));
    } else {
        assert(restamped_list(kvs, now) =~= Seq::<(Seq<char>, Seq<char>)>::empty());
    }
}

/// Attribute synchronization law: the attribute set a stake leaves behind
/// is always readable — its recorded cumulative time is the one already
/// stored, or zero when the asset never carried one.
pub proof fn lemma_staked_attrs_readable(kvs: Seq<(Seq<char>, Seq<char>)>, now: i64)
    ensures
        staked_time_total(staked_attr_list(kvs, now)) == (if has_key(kvs, "staked_time"@) {
            staked_time_total(kvs)
        } else {
            Some(0int)
        }),
{
    lemma_reserved_keys_distinct();
    lemma_restamped_keeps_total(kvs, now);
    crate::text::lemma_parse_zero();
    let replaced = restamped_list(kvs, now);
    let with_staked = if has_key(kvs, "staked"@) {
        replaced
    } else {
        replaced.push(("staked"@, i64_dec(now as int)))
    };
    if !has_key(kvs, "staked"@) {
        assert(with_staked.drop_last() =~= replaced);
        assert(staked_time_total(with_staked) == staked_time_total(replaced));
    }
    if !has_key(kvs, "staked_time"@) {
        let result = with_staked.push(("staked_time"@, "0"@));
        assert(result.drop_last() =~= with_staked);
        assert(staked_time_total(with_staked) is Some) by {
            lemma_no_time_key_total(kvs);
        }
        assert(staked_time_total(result) == parse_i64_spec("0"@));
    }
}

/// After a stake at any nonzero time, the attribute set itself shows the
/// asset staked, so a second stake is rejected at the attribute level too.
pub proof fn lemma_staked_attrs_show_staked(kvs: Seq<(Seq<char>, Seq<char>)>, now: i64)
    requires
        now != 0,
    ensures
        shows_staked(staked_attr_list(kvs, now)),
{
    crate::text::lemma_dec_nonzero(now as int);
    let stamp = i64_dec(now as int);
    let replaced = restamped_list(kvs, now);
    let result = staked_attr_list(kvs, now);
    if has_key(kvs, "staked"@) {
        let i = choose|i: int| 0 <= i < kvs.len() && (#[trigger] kvs[i]).0 == "staked"@;
        assert(replaced[i] == (kvs[i].0, stamp));
        assert(result[i] == replaced[i]);
        assert(result[i].0 == "staked"@ && result[i].1 != "0"@);
    } else {
        let j = replaced.len() as int;
        assert(result[j] == ("staked"@, stamp));
        assert(result[j].0 == "staked"@ && result[j].1 != "0"@);
    }
}

/// Synchronization law (stake): the attribute set a stake leaves behind
/// carries the session start; every `staked` entry parses back to the
/// record's stake timestamp.
pub proof fn lemma_staked_attrs_match_record(kvs: Seq<(Seq<char>, Seq<char>)>, now: i64)
    ensures
        ({
            let s = staked_attr_list(kvs, now);
            &&& has_key(s, "staked"@)
            &&& forall|i: int|
                0 <= i < s.len() && (#[trigger] s[i]).0 == "staked"@ ==> parse_i64_spec(s[i].1)
                    == Some(now as int)
        }),
{
    lemma_reserved_keys_distinct();
    crate::text::lemma_parse_of_dec(now as int);
    let stamp = i64_dec(now as int);
    let replaced = restamped_list(kvs, now);
    let s = staked_attr_list(kvs, now);
    if has_key(kvs, "staked"@) {
        let i = choose|i: int| 0 <= i < kvs.len() && (#[trigger] kvs[i]).0 == "staked"@;
        assert(s[i] == replaced[i]);
        assert(s[i].0 == "staked"@);
    } else {
        assert(s[replaced.len() as int] == ("staked"@, stamp));
    }
    assert forall|i: int|
        0 <= i < s.len() && (#[trigger] s[i]).0 == "staked"@ implies parse_i64_spec(s[i].1) == Some(
        now as int,
    ) by {
        if i < replaced.len() {
            assert(s[i] == replaced[i]);
            if kvs[i].0 == "staked"@ {
                assert(replaced[i].1 == stamp);
            } else {
                assert(replaced[i] == kvs[i]);
            }
        } else {
            assert(s[i] == ("staked"@, stamp) || s[i] == ("staked_time"@, "0"@));
        }
    }
}

/// The scrub leaves no running-total entry behind.
proof fn lemma_scrubbed_no_time_key(kvs: Seq<(Seq<char>, Seq<char>)>)
    ensures
        !has_key(scrubbed_attr_list(kvs), "staked_time"@),
    decreases kvs.len(),
{
    lemma_reserved_keys_distinct();
    if kvs.len() > 0 {
        lemma_scrubbed_no_time_key(kvs.drop_last());
        let front = scrubbed_attr_list(kvs.drop_last());
        let s = scrubbed_attr_list(kvs);
        let last = kvs.last();
        if last.0 != "staked_time"@ {
            let x = if last.0 == "staked"@ {
                (last.0, "0"@)
            } else {
                last
            };
            assert(s == front.push(x));
            assert forall|i: int| 0 <= i < s.len() implies (#[trigger] s[i]).0 != "staked_time"@ by {
                if i < front.len() {
                    assert(s[i] == front[i]);
                }
            }
        }
    }
}

/// Synchronization law (unstake): the attribute set an unstake leaves
/// behind reads back exactly the new cumulative total, whatever the asset
/// carried before; in particular it is readable again for the next cycle.
pub proof fn lemma_unstaked_attrs_match_total(kvs: Seq<(Seq<char>, Seq<char>)>, new_total: int)
    requires
        i64::MIN <= new_total <= i64::MAX,
    ensures
        staked_time_total(unstaked_attr_list(kvs, new_total)) == Some(new_total),
{
    lemma_scrubbed_no_time_key(kvs);
    lemma_no_time_key_total(scrubbed_attr_list(kvs));
    crate::text::lemma_parse_of_dec(new_total);
    let s = unstaked_attr_list(kvs, new_total);
    assert(s.drop_last() =~= scrubbed_attr_list(kvs));
    assert(s.last() == ("staked_time"@, i64_dec(new_total)));
}

/// Without a `staked_time` entry the attribute set records zero cumulative
/// time.
proof fn lemma_no_time_key_total(kvs: Seq<(Seq<char>, Seq<char>)>)
    requires
        !has_key(kvs, "staked_time"@),
    ensures
        staked_time_total(kvs) == Some(0int),
    decreases kvs.len(),
{
    if kvs.len() > 0 {
        assert(!has_key(kvs.drop_last(), "staked_time"@)) by {
            assert(forall|i: int|
                0 <= i < kvs.len() - 1 ==> (#[trigger] kvs.drop_last()[i]) == kvs[i]);
        }
        lemma_no_time_key_total(kvs.drop_last());
        assert(kvs.last().0 != "staked_time"@) by {
            assert(kvs[kvs.len() - 1].0 == kvs.last().0);
        }
    }
}

/// A cumulative staked time the attribute set records is an i64 value.
pub proof fn lemma_staked_time_total_in_range(kvs: Seq<(Seq<char>, Seq<char>)>)
    ensures
        staked_time_total(kvs) matches Some(t) ==> i64::MIN <= t <= i64::MAX,
    decreases kvs.len(),
{
    if kvs.len() > 0 {
        lemma_staked_time_total_in_range(kvs.drop_last());
    }
}

/// Once some prefix of the attribute list fails to read, the whole list
/// fails to read.
proof fn lemma_staked_time_total_extends_none(kvs: Seq<(Seq<char>, Seq<char>)>, i: int)
    requires
        0 <= i < kvs.len(),
        staked_time_total(kvs.subrange(0, i + 1)) is None,
    ensures
        staked_time_total(kvs) is None,
    decreases kvs.len() - i,
{
    if i + 1 == kvs.len() {
        assert(kvs.subrange(0, i + 1) =~= kvs);
    } else {
        assert(kvs.subrange(0, i + 2).drop_last() =~= kvs.subrange(0, i + 1));
        lemma_staked_time_total_extends_none(kvs, i + 1);
    }
}

} // verus!
