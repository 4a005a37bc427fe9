//! Configuration of the service, resolved once before the service is built.

use crate::vector::error::{ErrorModel, VectorError};
use vstd::prelude::*;
use vstd::string::StringExecFns;
use vstd::string::StringSliceAdditionalSpecFns;

verus! {

/// `b` is the ASCII code of a decimal digit.
pub open spec fn is_digit(b: u8) -> bool {
    0x30 <= b <= 0x39
}

/// Every byte is a decimal digit.
pub open spec fn all_digits(digits: Seq<u8>) -> bool {
    forall|i: int| 0 <= i < digits.len() ==> is_digit(#[trigger] digits[i])
}

/// The number that a sequence of decimal digits writes.
pub open spec fn digits_value(digits: Seq<u8>) -> nat
    decreases digits.len(),
{
    if digits.len() == 0 {
        0
    } else {
        digits_value(digits.drop_last()) * 10 + (digits.last() - 0x30) as nat
    }
}

/// The text without a leading plus sign.
pub open spec fn without_sign(text: Seq<u8>) -> Seq<u8> {
    if text.len() > 0 && text[0] == 0x2b {
        text.drop_first()
    } else {
        text
    }
}

/// The count that a text writes in decimal: an optional plus sign followed by
/// one or more digits and nothing else, with a value that the machine can hold.
pub open spec fn parsed_count(text: Seq<u8>) -> Option<usize> {
    let digits = without_sign(text);
    if digits.len() > 0 && all_digits(digits) && digits_value(digits) <= usize::MAX {
        Some(digits_value(digits) as usize)
    } else {
        None
    }
}

/// The number of shards that a configured text stands for: the count it
/// writes if that is positive, and one where it is absent, unparsable or zero.
pub open spec fn shard_count_of(raw: Option<Seq<u8>>) -> usize {
    match raw {
        Some(text) => match parsed_count(text) {
            Some(n) => if n > 0 {
                n
            } else {
                1
            },
            None => 1,
        },
        None => 1,
    }
}

/// Path of the persistent store where none is configured.
pub open spec fn default_store_path() -> Seq<char> {
    "neoabzu-vector.db"@
}

/// Message of the configuration error for an empty store path.
pub open spec fn empty_store_path_message() -> Seq<char> {
    "NEOABZU_VECTOR_DB must not be empty"@
}

/// The store path that a configured value stands for, or the configuration
/// error for an empty one.
pub open spec fn store_path_of(raw: Option<Seq<char>>) -> Result<Seq<char>, ErrorModel> {
    match raw {
        Some(path) => if path.len() == 0 {
            Err(ErrorModel::Config(empty_store_path_message()))
        } else {
            Ok(path)
        },
        None => Ok(default_store_path()),
    }
}

/// Writing more digits never makes the number smaller.
pub proof fn lemma_digits_value_monotonic(digits: Seq<u8>, n: int)
    requires
        0 <= n <= digits.len(),
    ensures
        digits_value(digits.take(n)) <= digits_value(digits),
    decreases digits.len() - n,
{
    if n < digits.len() {
        lemma_digits_value_monotonic(digits, n + 1);
        assert(digits.take(n + 1).drop_last() =~= digits.take(n));
    } else {
        assert(digits.take(n) =~= digits);
    }
}

/// Reads a count written in decimal.
pub fn parse_count(text: &str) -> (count: Option<usize>)
    ensures
        count == parsed_count(text.spec_bytes()),
{
    let bytes = text.as_bytes();
    let n = bytes.len();
    let start: usize = if n > 0 && bytes[0] == 0x2b {
        1
    } else {
        0
    };
    let ghost digits = without_sign(bytes@);
    if start == n {
        return None;
    }
    let mut value: usize = 0;
    let mut i: usize = start;
    while i < n
        invariant
            start <= i <= n,
            n == bytes.len(),
            bytes@ == text.spec_bytes(),
            start <= 1,
            digits == without_sign(bytes@),
            digits.len() == n - start,
            forall|t: int| 0 <= t < digits.len() ==> digits[t] == bytes[t + start],
            forall|t: int| 0 <= t < i - start ==> is_digit(#[trigger] digits[t]),
            value == digits_value(digits.take(i - start)),
        decreases n - i,
    {
        let b = bytes[i];
        if b < 0x30 || b > 0x39 {
            assert(!is_digit(digits[i - start]));
            return None;
        }
        let d: usize = (b - 0x30) as usize;
        proof {
            assert(digits.take(i - start + 1).drop_last() =~= digits.take(i - start));
            assert(digits.take(i - start + 1).last() == b);
        }
        if value > (usize::MAX - d) / 10 {
            proof {
                assert(value * 10 + d > usize::MAX) by (nonlinear_arith)
                    requires
                        value > (usize::MAX - d) / 10,
                        d <= 9,
                ;
                lemma_digits_value_monotonic(digits, i - start + 1);
            }
            return None;
        }
        assert(value * 10 + d <= usize::MAX) by (nonlinear_arith)
            requires
                value <= (usize::MAX - d) / 10,
                d <= 9,
        ;
        value = value * 10 + d;
        i = i + 1;
    }
    proof {
        assert(digits.take(n - start) =~= digits);
    }
    Some(value)
}

/// Resolves the number of shards from its configured text.
pub fn resolve_shard_count(raw: Option<&str>) -> (count: usize)
    ensures
        count > 0,
        count == shard_count_of(
            match raw {
                Some(text) => Some(text.spec_bytes()),
                None => None,
            },
        ),
{
    match raw {
        Some(text) => match parse_count(text) {
            Some(n) => if n > 0 {
                n
            } else {
                1
            },
            None => 1,
        },
        None => 1,
    }
}

/// Resolves the path of the persistent store from its configured value.
pub fn resolve_store_path(raw: Option<String>) -> (path: Result<String, VectorError>)
    ensures
        match path {
            Ok(p) => store_path_of(
                match raw {
                    Some(s) => Some(s@),
                    None => None,
                },
            ) == Ok::<Seq<char>, ErrorModel>(p@),
            Err(e) => store_path_of(
                match raw {
                    Some(s) => Some(s@),
                    None => None,
                },
            ) == Err::<Seq<char>, ErrorModel>(e@),
        },
{
    match raw {
        Some(path) => {
            if path.as_str().is_empty() {
                Err(VectorError::Config(String::from_str("NEOABZU_VECTOR_DB must not be empty")))
            } else {
                Ok(path)
            }
        },
        None => Ok(String::from_str("neoabzu-vector.db")),
    }
}

/// Configuration of the service.
#[derive(Debug, PartialEq, Eq)]
pub struct Config {
    /// Number of shards; at least one.
    pub shard_count: usize,
    /// Path of the persistent store; never empty.
    pub store_path: String,
    /// Path of the dataset file, if one is configured.
    pub dataset_path: Option<String>,
}

impl Clone for Config {
    fn clone(&self) -> (copy: Config)
        ensures
            copy.shard_count == self.shard_count,
            copy.store_path@ == self.store_path@,
            copy.dataset_path == self.dataset_path,
    {
        Config {
            shard_count: self.shard_count,
            store_path: self.store_path.clone(),
            dataset_path: match &self.dataset_path {
                Some(path) => Some(path.clone()),
                None => None,
            },
        }
    }
}

impl Config {
    /// A configuration is well formed when it has at least one shard and a
    /// store path.
    pub open spec fn wf(&self) -> bool {
        &&& self.shard_count > 0
        &&& self.store_path@.len() > 0
    }

    /// Resolves the configuration from the configured values, each of which
    /// may be absent.
    pub fn resolve(
        shard_count: Option<&str>,
        store_path: Option<String>,
        dataset_path: Option<String>,
    ) -> (config: Result<Config, VectorError>)
        ensures
            match config {
                Ok(c) => {
                    &&& c.wf()
                    &&& c.shard_count == shard_count_of(
                        match shard_count {
                            Some(text) => Some(text.spec_bytes()),
                            None => None,
                        },
                    )
                    &&& store_path_of(
                        match store_path {
                            Some(s) => Some(s@),
                            None => None,
                        },
                    ) == Ok::<Seq<char>, ErrorModel>(c.store_path@)
                    &&& c.dataset_path == dataset_path
                },
                Err(e) => store_path_of(
                    match store_path {
                        Some(s) => Some(s@),
                        None => None,
                    },
                ) == Err::<Seq<char>, ErrorModel>(e@),
            },
    {
        let shards = resolve_shard_count(shard_count);
        match resolve_store_path(store_path) {
            Ok(path) => {
                proof {
                    reveal_strlit("neoabzu-vector.db");
                }
                Ok(Config { shard_count: shards, store_path: path, dataset_path })
            },
            Err(e) => Err(e),
        }
    }
}

} // verus!
