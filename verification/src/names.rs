use vstd::prelude::*;

use crate::store::FileStore;

verus! {

/// The bound on exclusive-create attempts for one generated-name upload.
/// Exhausting it is a defined failure, not an unbounded retry.
pub const MAX_ATTEMPTS: u32 = 100;

/// The character for the decimal digit `d` (for `d < 10`).
pub open spec fn digit_char(d: nat) -> char {
    if d == 0 {
        '0'
    } else if d == 1 {
        '1'
    } else if d == 2 {
        '2'
    } else if d == 3 {
        '3'
    } else if d == 4 {
        '4'
    } else if d == 5 {
        '5'
    } else if d == 6 {
        '6'
    } else if d == 7 {
        '7'
    } else if d == 8 {
        '8'
    } else {
        '9'
    }
}

/// `n` rendered as exactly three decimal digits, zero-padded.
pub open spec fn suffix_digits(n: nat) -> Seq<char> {
    seq![digit_char((n / 100) % 10), digit_char((n / 10) % 10), digit_char(n % 10)]
}

/// The name synthesized for a generated resource: the prefix, then a
/// three-digit zero-padded number, then the fixed extension.
pub open spec fn generated_name(prefix: Seq<char>, n: nat) -> Seq<char> {
    prefix + suffix_digits(n) + ".txt"@
}

/// The one-character string for the decimal digit `d`.
fn digit_str(d: u64) -> (r: &'static str)
    requires
        d < 10,
    ensures
        r@ =~= seq![digit_char(d as nat)],
{
    proof {
        reveal_strlit("0");
        reveal_strlit("1");
        reveal_strlit("2");
        reveal_strlit("3");
        reveal_strlit("4");
        reveal_strlit("5");
        reveal_strlit("6");
        reveal_strlit("7");
        reveal_strlit("8");
        reveal_strlit("9");
    }
    match d {
        0 => "0",
        1 => "1",
        2 => "2",
        3 => "3",
        4 => "4",
        5 => "5",
        6 => "6",
        7 => "7",
        8 => "8",
        _ => "9",
    }
}

/// Render a candidate name from a prefix and a suffix number below 1000:
/// the prefix, the number zero-padded to three digits, and `.txt`.
pub fn make_file_name(filename_prefix: &str, suffix: u64) -> (r: String)
    requires
        suffix < 1000,
    ensures
        r@ == generated_name(filename_prefix@, suffix as nat),
{
    let mut r = filename_prefix.to_owned();
    r.append(digit_str(suffix / 100));
    r.append(digit_str((suffix / 10) % 10));
    r.append(digit_str(suffix % 10));
    r.append(".txt");
    proof {
        assert((suffix / 100) as nat == ((suffix as nat) / 100) % 10);
        assert(((suffix / 10) % 10) as nat == ((suffix as nat) / 10) % 10);
        assert((suffix % 10) as nat == (suffix as nat) % 10);
        assert(r@ =~= generated_name(filename_prefix@, suffix as nat));
    }
    r
}

/// Relies on rand::random_range: a draw from the half-open range `0..1000`
/// with the thread-local generator, so the result is always below 1000.
/// Nothing more is assumed of it; every caller must cope with any draw.
#[verifier::external_body]
fn random_suffix() -> (r: u64)
    ensures
        r < 1000,
{
    rand::random_range(0..1000u64)
}

/// Create a store entry under a fresh generated name: up to `MAX_ATTEMPTS`
/// times, draw a suffix, render the candidate name, and attempt the atomic
/// exclusive create. A collision merely moves on to the next candidate; only
/// exhausting every attempt is a failure, reported as `Err` carrying the
/// number of attempts made. On success the store has gained an empty entry
/// under a name that did not exist before, and no other name changed.
/// Success is owed when no generated name with this prefix is occupied:
/// then the first attempt succeeds, whatever number was drawn.
pub fn create_new_file(store: &mut FileStore, filename_prefix: &str) -> (r: Result<String, u32>)
    requires
        old(store).wf(),
    ensures
        final(store).wf(),
        match r {
            Ok(filename) => !old(store)@.dom().contains(filename@) && (exists|n: nat|
                n < 1000 && filename@ == generated_name(filename_prefix@, n)) && final(store)@
                == old(store)@.insert(filename@, Seq::<u8>::empty()),
            Err(attempts) => attempts == MAX_ATTEMPTS && final(store)@ == old(store)@,
        },
        (forall|n: nat|
            n < 1000 ==> old(store)@.dom().contains(
                #[trigger] generated_name(filename_prefix@, n),
            )) ==> r is Err,
        (forall|n: nat|
            n < 1000 ==> !old(store)@.dom().contains(
                #[trigger] generated_name(filename_prefix@, n),
            )) ==> r is Ok,
{
    let mut attempts: u32 = 0;
    while attempts < MAX_ATTEMPTS
        invariant
            store.wf(),
            store@ == old(store)@,
            attempts <= MAX_ATTEMPTS,
            (forall|n: nat|
                n < 1000 ==> !old(store)@.dom().contains(
                    #[trigger] generated_name(filename_prefix@, n),
                )) ==> attempts == 0,
        decreases MAX_ATTEMPTS - attempts,
    {
        let suffix = random_suffix();
        let filename = make_file_name(filename_prefix, suffix);
        if store.create_new(&filename) {
            proof {
                assert(filename@ == generated_name(filename_prefix@, suffix as nat));
                if forall|n: nat|
                    n < 1000 ==> old(store)@.dom().contains(
                        #[trigger] generated_name(filename_prefix@, n),
                    ) {
                    assert(old(store)@.dom().contains(
                        generated_name(filename_prefix@, suffix as nat),
                    ));
                    assert(false);
                }
            }
            return Ok(filename);
        }
        proof {
            // A collision names an occupied candidate, so from here on not
            // every suffix is free.
            if forall|n: nat|
                n < 1000 ==> !old(store)@.dom().contains(
                    #[trigger] generated_name(filename_prefix@, n),
                ) {
                assert(!old(store)@.dom().contains(
                    generated_name(filename_prefix@, suffix as nat),
                ));
                assert(false);
            }
        }
        attempts = attempts + 1;
    }
    Err(attempts)
}

} // verus!
