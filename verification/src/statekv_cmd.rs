//! The command that shows the modified state of a block.

use crate::block_tracing::parser::{has_tag, tag, tag_bytes};
use crate::codec::{opt_view, BlockHash};
use crate::columns;
use crate::db::Contents;
use crate::engine::StateKv;
use crate::error::StateKvError;
use crate::hex::{decode, decoded, encode, hex_text, HexError};
use crate::model::{block_listing, child_listing, entries_view, hash_of, well_formed_under};
use crate::params::{ImportParams, SharedParams};
use crate::rpc::NumberOrHash;
use vstd::prelude::*;
use vstd::slice::slice_subrange;
use vstd::string::{StringExecFns, StringSliceAdditionalSpecFns};

verus! {

/// The command that shows the modified state of a block.
#[derive(Debug)]
pub struct StateKvCmd {
    /// Block hash or number
    pub input: NumberOrHash,
    /// The child whose modified state is shown besides the top-level one.
    pub child: Option<Vec<u8>>,
    pub shared_params: SharedParams,
    pub import_params: ImportParams,
}

/// Why the command fails. Where it fails at the child, the top-level
/// entries of the block were found before, and the error carries them to be
/// shown all the same.
#[derive(Debug)]
pub enum StateKvCmdError {
    /// do not have block hash for this block number
    NoHashForNumber(u64),
    /// do not have state for this block hash
    NoState(BlockHash),
    /// do not have state for this child in this block hash: the child, and
    /// what was found of the block.
    NoChildState(Vec<u8>, Report),
    /// The store failed before anything was found.
    Store(StateKvError),
    /// The store failed at the entries of the child: the failure, and what
    /// was found of the block.
    ChildStore(StateKvError, Report),
}

/// The modified state of a block, as the command found it.
#[derive(Debug)]
pub struct Report {
    pub hash: BlockHash,
    pub kvs: Vec<(Vec<u8>, Option<Vec<u8>>)>,
    pub child_kvs: Option<Vec<(Vec<u8>, Option<Vec<u8>>)>>,
}

/// Why a text names no child.
#[derive(Clone, Copy, PartialEq, Eq, Debug)]
pub enum ParseBytesError {
    /// child bytes should be hex string and start with '0x'
    MissingPrefix,
    /// What follows the prefix is no hexadecimal text.
    Hex(HexError),
}

/// The line that shows one entry: its key and its value in hexadecimal
/// digits, and `[DELETED]` in place of the value of a deleted key.
pub open spec fn line_of(entry: (Seq<u8>, Option<Seq<u8>>)) -> Seq<char> {
    "\tkey:"@ + hex_text(entry.0) + "|value:"@ + (match entry.1 {
        Some(value) => hex_text(value),
        None => "[DELETED]"@,
    })
}

/// The line above the top-level entries of a block.
pub open spec fn header_of(hash: Seq<u8>) -> Seq<char> {
    "modified state for block:0x"@ + hex_text(hash)
}

/// The line above the entries of a child in a block.
pub open spec fn child_header_of(hash: Seq<u8>, child: Seq<u8>) -> Seq<char> {
    "modified child state for block:0x"@ + hex_text(hash) + "|child:"@ + hex_text(child)
}

/// The lines as texts.
pub open spec fn lines_view(lines: Seq<String>) -> Seq<Seq<char>> {
    Seq::new(lines.len(), |i: int| lines[i]@)
}

/// The lines that show the entries, one line each.
pub open spec fn entry_lines(entries: Seq<(Seq<u8>, Option<Seq<u8>>)>) -> Seq<Seq<char>> {
    Seq::new(entries.len(), |i: int| line_of(entries[i]))
}

/// Renders the line of one entry.
pub fn render_line(key: &[u8], value: &Option<Vec<u8>>) -> (line: String)
    ensures
        line@ == line_of((key@, opt_view(*value))),
{
    let mut line: String = String::from_str("\tkey:");
    let key_text: String = encode(key);
    line.append(key_text.as_str());
    line.append("|value:");
    match value {
        Some(v) => {
            let value_text: String = encode(v.as_slice());
            line.append(value_text.as_str());
        },
        None => {
            line.append("[DELETED]");
        },
    }
    line
}

/// Appends the lines of the entries to `lines`.
pub fn render_entries(lines: &mut Vec<String>, kvs: &Vec<(Vec<u8>, Option<Vec<u8>>)>)
    ensures
        lines_view(final(lines)@) == lines_view(old(lines)@) + entry_lines(entries_view(kvs@)),
{
    let ghost start = lines_view(lines@);
    let ghost entries = entries_view(kvs@);
    let mut i: usize = 0;
    while i < kvs.len()
        invariant
            i <= kvs@.len(),
            entries == entries_view(kvs@),
            lines_view(lines@) == start + entry_lines(entries.subrange(0, i as int)),
        decreases kvs@.len() - i,
    {
        let ghost before = lines_view(lines@);
        let line: String = render_line(kvs[i].0.as_slice(), &kvs[i].1);
        lines.push(line);
        proof {
            assert(entries[i as int] == (kvs@[i as int].0@, opt_view(kvs@[i as int].1)));
            assert(lines_view(lines@) =~= before.push(line_of(entries[i as int])));
            assert(entry_lines(entries.subrange(0, i + 1)) =~= entry_lines(
                entries.subrange(0, i as int),
            ).push(line_of(entries[i as int])));
        }
        i += 1;
    }
    assert(entries.subrange(0, kvs@.len() as int) == entries);
}

impl Report {
    /// The lines of a report: the header and the entries of the block,
    /// then, where a child was asked for, its header and its entries.
    pub open spec fn lines_of(&self, child: Option<Seq<u8>>) -> Seq<Seq<char>> {
        let top = seq![header_of(self.hash@)] + entry_lines(entries_view(self.kvs@));
        match (child, self.child_kvs) {
            (Some(child), Some(child_kvs)) => top + seq![child_header_of(self.hash@, child)]
                + entry_lines(entries_view(child_kvs@)),
            _ => top,
        }
    }

    /// Renders the report as lines.
    pub fn lines(&self, child: Option<&[u8]>) -> (lines: Vec<String>)
        ensures
            lines_view(lines@) == self.lines_of(crate::codec::opt_slice_view(child)),
    {
        let mut lines: Vec<String> = Vec::new();
        let mut header: String = String::from_str("modified state for block:0x");
        let hash_text: String = encode(self.hash.as_slice());
        header.append(hash_text.as_str());
        lines.push(header);
        assert(lines_view(lines@) =~= seq![header_of(self.hash@)]);
        render_entries(&mut lines, &self.kvs);
        match child {
            Some(child) => match &self.child_kvs {
                Some(child_kvs) => {
                    let ghost top = lines_view(lines@);
                    let mut header: String = String::from_str("modified child state for block:0x");
                    header.append(hash_text.as_str());
                    header.append("|child:");
                    let child_text: String = encode(child);
                    header.append(child_text.as_str());
                    lines.push(header);
                    assert(lines_view(lines@) =~= top + seq![child_header_of(self.hash@, child@)]);
                    render_entries(&mut lines, child_kvs);
                },
                None => {},
            },
            None => {},
        }
        lines
    }
}

/// Whether `report` holds the top-level entries of a block that the input
/// names, and nothing of a child.
pub open spec fn top_level_found(c: Contents, input: NumberOrHash, report: Report) -> bool {
    &&& resolves_to(c, input, report.hash@)
    &&& block_listing(c, report.hash@, Ok(Some(report.kvs)))
    &&& report.child_kvs is None
}

/// Whether `r` is what the command finds in a store that holds `c`: the
/// entries of the block that the input names, and those of the child where
/// one is asked for. A number without a recorded hash, a block without
/// entries and a child without entries are reported as such, and so is a
/// malformed record, the last two with the top-level entries of the block.
pub open spec fn run_result(
    c: Contents,
    input: NumberOrHash,
    child: Option<Seq<u8>>,
    r: Result<Report, StateKvCmdError>,
) -> bool {
    match r {
        Ok(report) => {
            &&& resolves_to(c, input, report.hash@)
            &&& block_listing(c, report.hash@, Ok(Some(report.kvs)))
            &&& match child {
                Some(child) => report.child_kvs is Some && child_listing(
                    c,
                    report.hash@,
                    child,
                    Ok(Some(report.child_kvs->Some_0)),
                ),
                None => report.child_kvs is None,
            }
        },
        Err(StateKvCmdError::NoHashForNumber(n)) => input == NumberOrHash::Number(n) && hash_of(
            c,
            n,
        ) is None,
        Err(StateKvCmdError::NoState(hash)) => {
            &&& resolves_to(c, input, hash@)
            &&& block_listing(c, hash@, Ok(None))
        },
        Err(StateKvCmdError::NoChildState(root, report)) => {
            &&& top_level_found(c, input, report)
            &&& child == Some(root@)
            &&& child_listing(c, report.hash@, root@, Ok(None))
        },
        Err(StateKvCmdError::Store(StateKvError::Database(_))) => input is Number,
        Err(StateKvCmdError::Store(StateKvError::Corrupted)) => malformed_for(c, input),
        Err(StateKvCmdError::Store(_)) => false,
        Err(StateKvCmdError::ChildStore(e, report)) => {
            &&& top_level_found(c, input, report)
            &&& child is Some
            &&& child_listing(c, report.hash@, child->Some_0, Err(e))
        },
    }
}

/// Whether a record that the command reads before it finds anything is
/// malformed: the recorded hash of the number that the input names, or a
/// top-level entry of the block.
pub open spec fn malformed_for(c: Contents, input: NumberOrHash) -> bool {
    ||| match input {
        NumberOrHash::Number(n) => hash_of(c, n) is Some && hash_of(c, n)->Some_0.len()
            != crate::codec::HASH_LEN,
        NumberOrHash::Hash(_) => false,
    }
    ||| exists|hash: Seq<u8>| #[trigger]
        resolves_to(c, input, hash) && !well_formed_under(c, columns::STATE_KV, hash, hash)
}

/// Whether the input names the block with this hash: the hash itself, or a
/// number that the hash is recorded for.
pub open spec fn resolves_to(c: Contents, input: NumberOrHash, hash: Seq<u8>) -> bool {
    match input {
        NumberOrHash::Hash(h) => h@ == hash,
        NumberOrHash::Number(n) => hash_of(c, n) == Some(hash),
    }
}

impl StateKvCmd {
    /// Run the command: finds the modified state of the block.
    pub fn run(&self, state_kv: &StateKv) -> (r: Result<Report, StateKvCmdError>)
        requires
            state_kv.wf(),
        ensures
            run_result(state_kv.contents(), self.input, opt_view(self.child), r),
    {
        let hash: BlockHash = match self.input {
            NumberOrHash::Hash(hash) => hash,
            NumberOrHash::Number(num) => match state_kv.get_hash(num) {
                Ok(Some(hash)) => hash,
                Ok(None) => {
                    return Err(StateKvCmdError::NoHashForNumber(num));
                },
                Err(e) => {
                    return Err(StateKvCmdError::Store(e));
                },
            },
        };
        let kvs: Vec<(Vec<u8>, Option<Vec<u8>>)> = match state_kv.get_kvs_by_hash(hash) {
            Ok(Some(kvs)) => kvs,
            Ok(None) => {
                return Err(StateKvCmdError::NoState(hash));
            },
            Err(e) => {
                assert(resolves_to(state_kv.contents(), self.input, hash@));
                return Err(StateKvCmdError::Store(e));
            },
        };
        let child_kvs: Option<Vec<(Vec<u8>, Option<Vec<u8>>)>> = match &self.child {
            Some(child) => match state_kv.get_child_kvs_by_hash(hash, child.as_slice()) {
                Ok(Some(kvs)) => Some(kvs),
                Ok(None) => {
                    return Err(
                        StateKvCmdError::NoChildState(
                            child.clone(),
                            Report { hash, kvs, child_kvs: None },
                        ),
                    );
                },
                Err(e) => {
                    return Err(
                        StateKvCmdError::ChildStore(e, Report { hash, kvs, child_kvs: None }),
                    );
                },
            },
            None => None,
        };
        Ok(Report { hash, kvs, child_kvs })
    }
}

/// Whether `r` is what a text stands for as the id of a child: the bytes
/// that the hexadecimal digits behind `0x` spell.
pub open spec fn parsed_bytes(text: Seq<u8>, r: Result<Vec<u8>, ParseBytesError>) -> bool {
    let prefix = tag_bytes("0x");
    match r {
        Ok(bytes) => has_tag(text, 0, prefix) && decoded(
            text.subrange(prefix.len() as int, text.len() as int),
            Ok(bytes),
        ),
        Err(ParseBytesError::MissingPrefix) => !has_tag(text, 0, prefix),
        Err(ParseBytesError::Hex(e)) => has_tag(text, 0, prefix) && decoded(
            text.subrange(prefix.len() as int, text.len() as int),
            Err(e),
        ),
    }
}

/// Reads the id of a child: hexadecimal digits behind `0x`.
pub fn parse_bytes(s: &str) -> (r: Result<Vec<u8>, ParseBytesError>)
    ensures
        parsed_bytes(s.spec_bytes(), r),
{
    let text: &[u8] = s.as_bytes();
    let prefix: &[u8] = "0x".as_bytes();
    if !tag(text, 0, prefix) {
        return Err(ParseBytesError::MissingPrefix);
    }
    match decode(slice_subrange(text, prefix.len(), text.len())) {
        Ok(bytes) => Ok(bytes),
        Err(e) => Err(ParseBytesError::Hex(e)),
    }
}

} // verus!
