use vstd::prelude::*;
use crate::error::MvcError;
use crate::number::{
    decimal_of, digit_char, digit_value, is_digit, parse_decimal, reads_as_u32, render_decimal,
    u32_value, unsigned_digits, value_of,
};

verus! {

/// The text that HEAD holds in a freshly created repository.
pub const INITIAL_HEAD: &'static str = "0";

/// Commands other than initialization need an initialized repository.
pub fn require_repository(initialized: bool) -> (r: Result<(), MvcError>)
    ensures
        r is Ok <==> initialized,
        r is Err ==> r == Err::<(), MvcError>(MvcError::NotInRepository),
{
    if initialized {
        Ok(())
    } else {
        Err(MvcError::NotInRepository)
    }
}

/// Initialization refuses a directory that already holds a repository, so
/// that existing snapshots are never reset.
pub fn require_uninitialized(initialized: bool) -> (r: Result<(), MvcError>)
    ensures
        r is Ok <==> !initialized,
        r is Err ==> r == Err::<(), MvcError>(MvcError::AlreadyInitialized),
{
    if initialized {
        Err(MvcError::AlreadyInitialized)
    } else {
        Ok(())
    }
}

/// Reads the HEAD pointer's text.
pub fn read_head(text: &str) -> (r: Result<u32, MvcError>)
    ensures
        r is Ok <==> reads_as_u32(text@),
        r matches Ok(n) ==> n as nat == u32_value(text@),
        r is Err ==> r == Err::<u32, MvcError>(MvcError::InvalidState),
{
    match parse_decimal(text) {
        Some(n) => Ok(n),
        None => Err(MvcError::InvalidState),
    }
}

/// The text that stores `head` as the HEAD pointer.
pub fn head_text(head: u32) -> (r: String)
    ensures
        r@ == decimal_of(head as nat),
{
    render_decimal(head)
}

/// The identifier that a save gives its snapshot: one past HEAD.
pub fn next_snapshot_id(head_text: &str) -> (r: Result<u32, MvcError>)
    ensures
        r is Ok <==> reads_as_u32(head_text@) && u32_value(head_text@) < u32::MAX,
        r matches Ok(n) ==> n as nat == u32_value(head_text@) + 1,
        r is Err ==> r == Err::<u32, MvcError>(MvcError::InvalidState),
{
    match parse_decimal(head_text) {
        Some(n) => {
            if n < u32::MAX {
                Ok(n + 1)
            } else {
                Err(MvcError::InvalidState)
            }
        },
        None => Err(MvcError::InvalidState),
    }
}

/// Where the archive of snapshot `id` is kept.
pub fn archive_path(id: u32) -> (r: String)
    ensures
        r@ == ".mvc/archives/"@ + decimal_of(id as nat) + ".tar"@,
{
    let mut p = String::from_str(".mvc/archives/");
    let d = render_decimal(id);
    p.append(d.as_str());
    p.append(".tar");
    p
}

/// Where the metadata record of snapshot `id` is kept.
pub fn metadata_path(id: u32) -> (r: String)
    ensures
        r@ == ".mvc/metadata/"@ + decimal_of(id as nat) + ".json"@,
{
    let mut p = String::from_str(".mvc/metadata/");
    let d = render_decimal(id);
    p.append(d.as_str());
    p.append(".json");
    p
}

proof fn lemma_digit_round_trip(d: nat)
    requires
        d < 10,
    ensures
        is_digit(digit_char(d)),
        digit_value(digit_char(d)) == d,
{
}

/// Rendered decimal text reads back as the same number.
pub proof fn lemma_decimal_round_trip(n: nat)
    ensures
        decimal_of(n).len() > 0,
        forall|i: int| 0 <= i < decimal_of(n).len() ==> is_digit(#[trigger] decimal_of(n)[i]),
        value_of(decimal_of(n)) == n,
    decreases n,
{
    if n < 10 {
        lemma_digit_round_trip(n);
        assert(decimal_of(n).drop_last() =~= Seq::<char>::empty());
        assert(value_of(Seq::<char>::empty()) == 0);
    } else {
        lemma_decimal_round_trip(n / 10);
        lemma_digit_round_trip(n % 10);
        let s = decimal_of(n);
        assert(s.drop_last() =~= decimal_of(n / 10));
        assert(s.last() == digit_char(n % 10));
        assert(value_of(s) == value_of(decimal_of(n / 10)) * 10 + digit_value(s.last()));
        assert((n / 10) * 10 + n % 10 == n);
        assert forall|i: int| 0 <= i < s.len() implies is_digit(#[trigger] s[i]) by {
            if i < s.len() - 1 {
                assert(s[i] == decimal_of(n / 10)[i]);
            }
        }
    }
}

/// A save moves HEAD forward by exactly one: the stored text reads back as
/// one past the value it held before.
pub proof fn lemma_save_advances_head(before: Seq<char>, id: u32)
    requires
        reads_as_u32(before),
        id as nat == u32_value(before) + 1,
    ensures
        reads_as_u32(decimal_of(id as nat)),
        u32_value(decimal_of(id as nat)) == u32_value(before) + 1,
{
    lemma_decimal_round_trip(id as nat);
    assert(is_digit(decimal_of(id as nat)[0]));
    assert(unsigned_digits(decimal_of(id as nat)) == decimal_of(id as nat));
}

} // verus!
