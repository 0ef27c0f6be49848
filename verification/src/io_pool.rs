//! The worker pool that looks up, side by side, what the raw store knows of
//! the keys of a batch. It is made once and lent to each commit.

use crate::state_kv_db::StateKvDb;
use crate::types::{StateKey, Version};
use crate::usage_ledger::write_as_of;
use crate::value_cache::write_view;
use rayon::iter::{IntoParallelRefIterator, ParallelIterator};
use rayon::{ThreadPool, ThreadPoolBuilder};
use vstd::prelude::*;
use vstd::string::StringExecFns;

verus! {

/// `rayon::ThreadPool`, a set of worker threads. Nothing inside it is
/// visible here.
#[verifier::external_type_specification]
#[verifier::external_body]
pub struct ExThreadPool(ThreadPool);

/// The number of workers that suits reads from the shards of the raw store.
pub const IO_POOL_THREADS: usize = 32;

/// A pool of workers for reads from the raw store.
pub struct IoPool {
    pub workers: ThreadPool,
}

/// The character of a decimal digit.
pub open spec fn digit_char(digit: nat) -> char {
    if digit == 0 {
        '0'
    } else if digit == 1 {
        '1'
    } else if digit == 2 {
        '2'
    } else if digit == 3 {
        '3'
    } else if digit == 4 {
        '4'
    } else if digit == 5 {
        '5'
    } else if digit == 6 {
        '6'
    } else if digit == 7 {
        '7'
    } else if digit == 8 {
        '8'
    } else {
        '9'
    }
}

/// A number written in decimal digits.
pub open spec fn decimal(number: nat) -> Seq<char>
    decreases number,
{
    if number < 10 {
        seq![digit_char(number)]
    } else {
        decimal(number / 10).push(digit_char(number % 10))
    }
}

/// The text of a decimal digit.
fn digit_text(digit: usize) -> (text: &'static str)
    requires
        digit < 10,
    ensures
        text@ == seq![digit_char(digit as nat)],
{
    proof {
        reveal_strlit("0");
        reveal_strlit("1");
        reveal_strlit("2");
        reveal_strlit("3");
        reveal_strlit("4");
        reveal_strlit("5");
        reveal_strlit("6");
        reveal_strlit("7");
        reveal_strlit("8");
        reveal_strlit("9");
    }
    let text = if digit == 0 {
        "0"
    } else if digit == 1 {
        "1"
    } else if digit == 2 {
        "2"
    } else if digit == 3 {
        "3"
    } else if digit == 4 {
        "4"
    } else if digit == 5 {
        "5"
    } else if digit == 6 {
        "6"
    } else if digit == 7 {
        "7"
    } else if digit == 8 {
        "8"
    } else {
        "9"
    };
    proof {
        assert(text@ =~= seq![digit_char(digit as nat)]);
    }
    text
}

/// Writes a number in decimal digits after a text.
fn append_decimal(text: &mut String, number: usize)
    ensures
        final(text)@ == old(text)@ + decimal(number as nat),
    decreases number,
{
    if number >= 10 {
        append_decimal(text, number / 10);
    }
    text.append(digit_text(number % 10));
    proof {
        if number >= 10 {
            assert(final(text)@ =~= old(text)@ + decimal(number as nat));
        }
    }
}

/// The name of the worker with the index `index`: "kv_reader_" and the
/// index in decimal digits.
pub fn reader_name(index: usize) -> (name: String)
    ensures
        name@ == "kv_reader_"@ + decimal(index as nat),
{
    let mut name = String::from_str("kv_reader_");
    append_decimal(&mut name, index);
    name
}

/// `ThreadPoolBuilder::build`, for a pool of `num_threads` workers that are
/// named by `reader_name`: the pool, or nothing where the machine does not
/// give the threads. Which of the two is the machine's to say.
#[verifier::external_body]
fn build_pool(num_threads: usize) -> (pool: Option<ThreadPool>) {
    ThreadPoolBuilder::new()
        .num_threads(num_threads)
        .thread_name(|index| reader_name(index))
        .build()
        .ok()
}

/// What the raw store knows of `key` as of `base_version`: its latest live
/// value with the version of it, or nothing live as of `base_version`.
pub fn lookup_write(kv_db: &StateKvDb, key: &StateKey, base_version: Version) -> (write: (
    Version,
    Option<Vec<u8>>,
))
    ensures
        write_view(write) == write_as_of(kv_db.history(), key@, base_version),
{
    match kv_db.get_state_value_with_version_by_version(key, base_version) {
        Some((version, value)) => (version, Some(value.bytes)),
        None => (base_version, None),
    }
}

/// `ThreadPool::install` around a parallel `map` and `collect` over `keys`:
/// the workers look each key up with `lookup_write`, and the results come
/// back in the order of the keys.
#[verifier::external_body]
fn lookup_in_pool(
    pool: &ThreadPool,
    kv_db: &StateKvDb,
    keys: &Vec<StateKey>,
    base_version: Version,
) -> (writes: Vec<(Version, Option<Vec<u8>>)>)
    ensures
        writes@.len() == keys@.len(),
        forall|i: int|
            0 <= i < keys@.len() ==> write_view(#[trigger] writes@[i]) == write_as_of(
                kv_db.history(),
                keys@[i]@,
                base_version,
            ),
{
    pool.install(|| keys.par_iter().map(|key| lookup_write(kv_db, key, base_version)).collect())
}

impl IoPool {
    /// A pool of `num_threads` workers, where the machine gives them.
    pub fn new(num_threads: usize) -> (pool: Option<Self>) {
        match build_pool(num_threads) {
            Some(workers) => Some(IoPool { workers }),
            None => None,
        }
    }

    /// What the raw store knows of each of `keys` as of `base_version`, in
    /// the order of the keys.
    pub fn lookup_writes(&self, kv_db: &StateKvDb, keys: &Vec<StateKey>, base_version: Version) -> (writes:
        Vec<(Version, Option<Vec<u8>>)>)
        ensures
            writes@.len() == keys@.len(),
            forall|i: int|
                0 <= i < keys@.len() ==> write_view(#[trigger] writes@[i]) == write_as_of(
                    kv_db.history(),
                    keys@[i]@,
                    base_version,
                ),
    {
        lookup_in_pool(&self.workers, kv_db, keys, base_version)
    }
}

} // verus!
