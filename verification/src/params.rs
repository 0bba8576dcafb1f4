//! The parameters that the commands of the node share.

use vstd::prelude::*;

verus! {

/// `std::path::PathBuf`, carried through as it is. Nothing inside it is
/// seen.
#[verifier::external_type_specification]
#[verifier::external_body]
pub struct ExPathBuf(std::path::PathBuf);

/// Shared parameters used by all `CoreParams`.
#[derive(Debug)]
pub struct SharedParams {
    /// Specify the chain specification (one of dev, local, or staging).
    pub chain: Option<String>,
    /// Specify custom base path.
    pub base_path: Option<std::path::PathBuf>,
    /// Specify workspace.
    pub workspace: Option<String>,
    /// Sets a custom logging filter. Syntax is <target>=<level>, e.g.
    /// -lsync=debug.
    ///
    /// Log levels (least to most verbose) are error, warn, info, debug, and
    /// trace. By default, all targets log `info`. The global log level can
    /// be set with -l<level>.
    pub log: Vec<String>,
    /// Disable log color output.
    pub disable_log_color: bool,
    /// Disable feature to dynamically update and reload the log filter.
    pub disable_log_reloading: bool,
    /// Sets a custom profiling filter. Syntax is the same as for logging:
    /// <target>=<level>
    pub tracing_targets: Option<String>,
}

impl SharedParams {
    /// Get the chain spec for the parameters provided
    pub fn chain_id(&self) -> (id: String)
        ensures
            id@ == (match self.chain {
                Some(chain) => chain@,
                None => Seq::<char>::empty(),
            }),
    {
        match self.chain {
            Some(ref chain) => chain.clone(),
            None => String::new(),
        }
    }

    /// Get the workspace for the parameters provided
    pub fn workspace(&self) -> (w: Option<&str>)
        ensures
            match w {
                Some(text) => self.workspace is Some && text@ == self.workspace->Some_0@,
                None => self.workspace is None,
            },
    {
        match &self.workspace {
            Some(w) => Some(w.as_str()),
            None => None,
        }
    }

    /// Get the filters for the logging
    pub fn log_filters(&self) -> (filters: &[String])
        ensures
            filters@ == self.log@,
    {
        self.log.as_slice()
    }

    /// Should the log color output be disabled?
    pub fn disable_log_color(&self) -> (b: bool)
        ensures
            b == self.disable_log_color,
    {
        self.disable_log_color
    }

    /// Is log reloading disabled
    pub fn is_log_filter_reloading_disabled(&self) -> (b: bool)
        ensures
            b == self.disable_log_reloading,
    {
        self.disable_log_reloading
    }

    /// Comma separated list of targets for tracing.
    pub fn tracing_targets(&self) -> (targets: Option<String>)
        ensures
            targets == self.tracing_targets,
    {
        match &self.tracing_targets {
            Some(t) => Some(t.clone()),
            None => None,
        }
    }
}

/// Parameters for block import.
#[derive(Debug)]
pub struct ImportParams {
    /// Specify the state cache size.
    pub state_cache_size: usize,
}

impl ImportParams {
    /// Specify the state cache size.
    pub fn state_cache_size(&self) -> (size: usize)
        ensures
            size == self.state_cache_size,
    {
        self.state_cache_size
    }
}

/// What a node does in its network.
#[derive(Clone, Copy, PartialEq, Eq, Debug)]
pub enum Role {
    Full,
    Light,
    Authority,
}

impl Role {
    /// True for `Role::Authority`.
    pub fn is_authority(&self) -> (b: bool)
        ensures
            b == (*self is Authority),
    {
        match self {
            Role::Authority => true,
            _ => false,
        }
    }
}

/// How much state of past blocks is kept.
#[derive(Clone, Copy, PartialEq, Eq, Debug)]
pub enum PruningMode {
    /// Keep the state of all blocks.
    ArchiveAll,
    /// Keep the state of the last blocks only.
    Constrained { max_blocks: Option<u32> },
}

/// How many finalized blocks are kept.
#[derive(Clone, Copy, PartialEq, Eq, Debug)]
pub enum KeepBlocks {
    /// Keep all blocks.
    All,
    /// Keep N recent finalized blocks.
    Recent(u32),
}

/// Why the parameters name no pruning mode.
#[derive(Clone, Copy, PartialEq, Eq, Debug)]
pub enum PruningError {
    /// Validators should run with state pruning disabled (i.e. archive).
    ValidatorMustArchive,
    /// Invalid pruning mode specified.
    InvalidMode,
}

/// The number of blocks whose state is kept where nothing else is said.
pub const DEFAULT_KEPT_BLOCKS: u32 = 256;

/// Whether all bytes are decimal digits.
pub open spec fn all_digits(digits: Seq<u8>) -> bool {
    forall|i: int| 0 <= i < digits.len() ==> 48 <= #[trigger] digits[i] <= 57
}

/// The number that decimal digits spell.
pub open spec fn decimal_number(digits: Seq<u8>) -> int
    decreases digits.len(),
{
    if digits.len() == 0 {
        0
    } else {
        decimal_number(digits.drop_last()) * 10 + (digits.last() - 48)
    }
}

/// The number that a text stands for: one or more decimal digits after an
/// optional `+`, where the number fits into 32 bits.
pub open spec fn count_of(text: Seq<u8>) -> Option<u32> {
    let digits = if text.len() > 0 && text[0] == 43 {
        text.drop_first()
    } else {
        text
    };
    if digits.len() > 0 && all_digits(digits) && decimal_number(digits) <= u32::MAX {
        Some(decimal_number(digits) as u32)
    } else {
        None
    }
}

/// The number of a prefix of digits is at most the number of all of them.
pub proof fn lemma_decimal_number_prefix(digits: Seq<u8>, n: int)
    requires
        0 <= n <= digits.len(),
        all_digits(digits),
    ensures
        0 <= decimal_number(digits.subrange(0, n)) <= decimal_number(digits),
    decreases digits.len() - n,
{
    lemma_decimal_number_nonnegative(digits.subrange(0, n));
    if n < digits.len() {
        lemma_decimal_number_prefix(digits, n + 1);
        let longer = digits.subrange(0, n + 1);
        assert(longer.drop_last() == digits.subrange(0, n));
        assert(longer.last() == digits[n]);
    } else {
        assert(digits.subrange(0, n) == digits);
    }
}

/// The number that digits spell is not negative.
pub proof fn lemma_decimal_number_nonnegative(digits: Seq<u8>)
    requires
        all_digits(digits),
    ensures
        0 <= decimal_number(digits),
    decreases digits.len(),
{
    if digits.len() > 0 {
        assert forall|i: int| 0 <= i < digits.drop_last().len() implies 48
            <= #[trigger] digits.drop_last()[i] <= 57 by {
            assert(digits.drop_last()[i] == digits[i]);
        }
        lemma_decimal_number_nonnegative(digits.drop_last());
        assert(48 <= digits[digits.len() - 1] <= 57);
    }
}

/// Reads a number of blocks.
pub fn parse_count(text: &[u8]) -> (count: Option<u32>)
    ensures
        count == count_of(text@),
{
    let start: usize = if text.len() > 0 && text[0] == 43 {
        1
    } else {
        0
    };
    let ghost digits = text@.subrange(start as int, text@.len() as int);
    assert(digits == (if text@.len() > 0 && text@[0] == 43 {
        text@.drop_first()
    } else {
        text@
    }));
    if start == text.len() {
        return None;
    }
    let mut acc: u64 = 0;
    let mut i: usize = start;
    while i < text.len()
        invariant
            start <= i <= text@.len(),
            digits == text@.subrange(start as int, text@.len() as int),
            digits == (if text@.len() > 0 && text@[0] == 43 {
                text@.drop_first()
            } else {
                text@
            }),
            digits.len() > 0,
            all_digits(digits.subrange(0, i - start)),
            acc == decimal_number(digits.subrange(0, i - start)),
            acc <= u32::MAX,
        decreases text@.len() - i,
    {
        let b: u8 = text[i];
        if !(48 <= b && b <= 57) {
            assert(!(48 <= digits[i - start] <= 57));
            return None;
        }
        let next: u64 = acc * 10 + (b - 48) as u64;
        proof {
            let longer = digits.subrange(0, i - start + 1);
            assert(longer.drop_last() == digits.subrange(0, i - start));
            assert(longer.last() == b);
            assert(decimal_number(longer) == next);
            assert forall|j: int| 0 <= j < longer.len() implies 48 <= #[trigger] longer[j] <= 57 by {
                if j < i - start {
                    assert(digits.subrange(0, i - start)[j] == longer[j]);
                }
            }
        }
        if next > 0xffff_ffff {
            proof {
                if all_digits(digits) {
                    lemma_decimal_number_prefix(digits, i - start + 1);
                }
            }
            return None;
        }
        acc = next;
        i += 1;
    }
    assert(digits.subrange(0, digits.len() as int) == digits);
    Some(acc as u32)
}

/// Parameters to define the pruning mode
#[derive(Debug)]
pub struct PruningParams {
    /// Specify the state pruning mode, a number of blocks to keep or
    /// 'archive'.
    ///
    /// Default is to keep all block states if the node is running as a
    /// validator (i.e. 'archive').
    pub pruning: Option<String>,
    /// Specify the number of finalized blocks to keep in the database.
    ///
    /// Default is to keep all blocks.
    pub keep_blocks: Option<u32>,
}

/// The pruning mode that the parameters name.
pub open spec fn state_pruning_of(
    pruning: Option<Seq<u8>>,
    unsafe_pruning: bool,
    authority: bool,
) -> Result<PruningMode, PruningError> {
    match pruning {
        None => if authority {
            Ok(PruningMode::ArchiveAll)
        } else {
            Ok(PruningMode::Constrained { max_blocks: Some(DEFAULT_KEPT_BLOCKS) })
        },
        Some(text) => if text == vstd::utf8::encode_utf8("archive"@) {
            Ok(PruningMode::ArchiveAll)
        } else if authority && !unsafe_pruning {
            Err(PruningError::ValidatorMustArchive)
        } else {
            match count_of(text) {
                Some(n) => Ok(PruningMode::Constrained { max_blocks: Some(n) }),
                None => Err(PruningError::InvalidMode),
            }
        },
    }
}

impl PruningParams {
    /// Get the pruning value from the parameters
    pub fn state_pruning(&self, unsafe_pruning: bool, role: &Role) -> (r: Result<
        PruningMode,
        PruningError,
    >)
        ensures
            r == state_pruning_of(
                match self.pruning {
                    Some(text) => Some(vstd::utf8::encode_utf8(text@)),
                    None => None,
                },
                unsafe_pruning,
                *role is Authority,
            ),
    {
        // by default we disable pruning if the node is an authority (i.e.
        // `ArchiveAll`), otherwise we keep state for the last 256 blocks. if the
        // node is an authority and pruning is enabled explicitly, then we error
        // unless `unsafe_pruning` is set.
        match &self.pruning {
            None => {
                if role.is_authority() {
                    Ok(PruningMode::ArchiveAll)
                } else {
                    Ok(PruningMode::Constrained { max_blocks: Some(DEFAULT_KEPT_BLOCKS) })
                }
            },
            Some(s) => {
                if crate::transaction::bytes_eq(s.as_str().as_bytes(), "archive".as_bytes()) {
                    Ok(PruningMode::ArchiveAll)
                } else if role.is_authority() && !unsafe_pruning {
                    Err(PruningError::ValidatorMustArchive)
                } else {
                    match parse_count(s.as_str().as_bytes()) {
                        Some(n) => Ok(PruningMode::Constrained { max_blocks: Some(n) }),
                        None => Err(PruningError::InvalidMode),
                    }
                }
            },
        }
    }

    /// Get the block pruning value from the parameters
    pub fn keep_blocks(&self) -> (r: KeepBlocks)
        ensures
            r == (match self.keep_blocks {
                Some(n) => KeepBlocks::Recent(n),
                None => KeepBlocks::All,
            }),
    {
        match self.keep_blocks {
            Some(n) => KeepBlocks::Recent(n),
            None => KeepBlocks::All,
        }
    }
}

} // verus!
