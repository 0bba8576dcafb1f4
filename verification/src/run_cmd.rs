//! What the `run` command decides from its parameters.

use crate::text::{parts_of, split_at_commas, strs_bytes, texts_bytes};
use crate::transaction::bytes_eq;
use vstd::prelude::*;
use vstd::string::{StrSliceExecFns, StringSliceAdditionalSpecFns};
use vstd::utf8::encode_utf8;

verus! {

/// The maximum number of characters for a node name.
pub const NODE_NAME_MAX_LENGTH: usize = 64;

/// What a regular expression finds in a text: whether it matches anywhere
/// in it, or `None` where the pattern is no regular expression.
pub uninterp spec fn regex_match(pattern: Seq<char>, text: Seq<char>) -> Option<bool>;

/// `Regex::new` and `Regex::is_match` of the `regex` crate: whether the
/// pattern matches anywhere in the text, `None` where the pattern does not
/// compile.
#[verifier::external_body]
pub(crate) fn regex_is_match(pattern: &str, text: &str) -> (found: Option<bool>)
    ensures
        found == regex_match(pattern@, text@),
{
    match regex::Regex::new(pattern) {
        Ok(re) => Some(re.is_match(text)),
        Err(_) => None,
    }
}

/// The verdict on a node name of `length` characters, given whether it holds
/// a character that no name may hold and whether it holds what looks like a
/// url.
pub open spec fn node_name_verdict(length: nat, invalid_chars: bool, url: bool) -> Result<
    (),
    Seq<char>,
> {
    if length >= NODE_NAME_MAX_LENGTH {
        Err("Node name too long"@)
    } else if invalid_chars {
        Err("Node name should not contain invalid chars such as '.' and '@'"@)
    } else if url {
        Err("Node name should not contain urls"@)
    } else {
        Ok(())
    }
}

/// The view of a verdict.
pub open spec fn verdict_view(r: Result<(), &str>) -> Result<(), Seq<char>> {
    match r {
        Ok(()) => Ok(()),
        Err(text) => Err(text@),
    }
}

/// Decides on a node name of `length` characters, given what the two
/// searches in it found.
pub fn check_node_name(length: usize, invalid_chars: bool, url: bool) -> (r: Result<
    (),
    &'static str,
>)
    ensures
        verdict_view(r) == node_name_verdict(length as nat, invalid_chars, url),
{
    if length >= NODE_NAME_MAX_LENGTH {
        return Err("Node name too long");
    }
    if invalid_chars {
        return Err("Node name should not contain invalid chars such as '.' and '@'");
    }
    if url {
        return Err("Node name should not contain urls");
    }
    Ok(())
}

/// The pattern of the characters that no node name may hold.
pub open spec fn invalid_chars_pattern() -> Seq<char> {
    "[\\\\.@]"@
}

/// The pattern of what looks like a url.
pub open spec fn invalid_patterns_pattern() -> Seq<char> {
    "(https?:\\\\/+)?(www)+"@
}

/// The verdict on a node name: too long with 64 characters or more, else
/// refused where the search for characters that no name may hold finds
/// one, else refused where the search for what looks like a url finds
/// something. A name that a search cannot be run on is refused as well.
pub open spec fn name_verdict(name: Seq<char>) -> Result<(), Seq<char>> {
    if name.len() >= NODE_NAME_MAX_LENGTH {
        Err("Node name too long"@)
    } else {
        match regex_match(invalid_chars_pattern(), name) {
            None => Err("Node name could not be checked"@),
            Some(true) => Err("Node name should not contain invalid chars such as '.' and '@'"@),
            Some(false) => match regex_match(invalid_patterns_pattern(), name) {
                None => Err("Node name could not be checked"@),
                Some(true) => Err("Node name should not contain urls"@),
                Some(false) => Ok(()),
            },
        }
    }
}

/// Check whether a node name is considered as valid.
pub fn is_node_name_valid(name: &str) -> (r: Result<(), &'static str>)
    ensures
        verdict_view(r) == name_verdict(name@),
{
    let length: usize = name.unicode_len();
    if length >= NODE_NAME_MAX_LENGTH {
        return Err("Node name too long");
    }
    match regex_is_match("[\\\\.@]", name) {
        Some(true) => {
            return check_node_name(length, true, false);
        },
        Some(false) => {},
        None => {
            return Err("Node name could not be checked");
        },
    }
    match regex_is_match("(https?:\\\\/+)?(www)+", name) {
        Some(url) => check_node_name(length, false, url),
        None => Err("Node name could not be checked"),
    }
}

/// The name of a node where none is given.
pub open spec fn default_node_name() -> Seq<char> {
    "europa-sandbox"@
}

/// The name of the node: the given one, or the default one, where it is
/// valid. The error is the reason why the name is not valid.
pub fn node_name(name: Option<&str>) -> (r: Result<String, &'static str>)
    ensures
        ({
            let chosen = match name {
                Some(given) => given@,
                None => default_node_name(),
            };
            match name_verdict(chosen) {
                Ok(()) => r is Ok && r->Ok_0@ == chosen,
                Err(reason) => r is Err && r->Err_0@ == reason,
            }
        }),
{
    let name: &str = match name {
        Some(name) => name,
        None => "europa-sandbox",
    };
    match is_node_name_valid(name) {
        Ok(()) => Ok(name.to_owned()),
        Err(msg) => Err(msg),
    }
}

/// The sets of remote calls that a node may offer.
#[derive(Clone, Copy, PartialEq, Eq, Debug)]
pub enum RpcMethods {
    /// Expose every RPC method only when RPC is listening on `localhost`,
    /// otherwise serve only safe RPC methods.
    Auto,
    /// Allow only a safe subset of RPC methods.
    Safe,
    /// Expose every RPC method (even potentially unsafe ones).
    Unsafe,
}

/// The interface that the remote calls are served on.
#[derive(Clone, Copy, PartialEq, Eq, Debug)]
pub enum Interface {
    /// This machine only.
    Localhost,
    /// Every interface of this machine.
    Unspecified,
}

/// Why no interface is chosen.
#[derive(Clone, Copy, PartialEq, Eq, Debug)]
pub enum InterfaceError {
    /// A validator was asked to serve remote calls to the outside without
    /// either of the two ways to say that this is meant.
    ExternalOnValidator,
}

/// The interface for the remote calls: every interface where the outside is
/// asked for, else this machine only. A validator refuses the outside unless
/// all methods are exposed on purpose.
pub open spec fn rpc_interface_of(
    is_external: bool,
    is_unsafe_external: bool,
    rpc_methods: RpcMethods,
    is_validator: bool,
) -> Result<Interface, InterfaceError> {
    if is_external && is_validator && rpc_methods != RpcMethods::Unsafe {
        Err(InterfaceError::ExternalOnValidator)
    } else if is_external || is_unsafe_external {
        Ok(Interface::Unspecified)
    } else {
        Ok(Interface::Localhost)
    }
}

/// Chooses the interface that the remote calls are served on.
pub fn rpc_interface(
    is_external: bool,
    is_unsafe_external: bool,
    rpc_methods: RpcMethods,
    is_validator: bool,
) -> (r: Result<Interface, InterfaceError>)
    ensures
        r == rpc_interface_of(is_external, is_unsafe_external, rpc_methods, is_validator),
{
    let is_unsafe: bool = match rpc_methods {
        RpcMethods::Unsafe => true,
        _ => false,
    };
    if is_external && is_validator && !is_unsafe {
        return Err(InterfaceError::ExternalOnValidator);
    }
    if is_external || is_unsafe_external {
        Ok(Interface::Unspecified)
    } else {
        Ok(Interface::Localhost)
    }
}

/// CORS setting
///
/// The type is introduced to overcome `Option<Option<T>>`
/// handling of `structopt`.
#[derive(Clone, Debug)]
pub enum Cors {
    /// All hosts allowed.
    All,
    /// Only hosts on the list are allowed.
    List(Vec<String>),
}

/// Whether a part allows all origins.
pub open spec fn allows_all(part: Seq<u8>) -> bool {
    part == encode_utf8("all"@) || part == encode_utf8("*"@)
}

/// Whether a cors setting is the one that a text of origins stands for: all
/// origins where one of its parts is `all` or `*`, else the list of its
/// parts.
pub open spec fn is_cors_of(bytes: Seq<u8>, cors: Cors) -> bool {
    match cors {
        Cors::All => exists|i: int|
            0 <= i < parts_of(bytes).len() && allows_all(#[trigger] parts_of(bytes)[i]),
        Cors::List(origins) => {
            &&& texts_bytes(origins@) == parts_of(bytes)
            &&& forall|i: int|
                0 <= i < parts_of(bytes).len() ==> !allows_all(#[trigger] parts_of(bytes)[i])
        },
    }
}

impl Cors {
    /// The allowed origins, `None` where all are allowed.
    pub fn into_origins(self) -> (r: Option<Vec<String>>)
        ensures
            r == (match self {
                Cors::All => None,
                Cors::List(list) => Some(list),
            }),
    {
        match self {
            Cors::All => None,
            Cors::List(list) => Some(list),
        }
    }
}

/// Parse cors origins.
pub fn parse_cors(s: &str) -> (cors: Cors)
    ensures
        is_cors_of(s.spec_bytes(), cors),
{
    let parts: Vec<&str> = split_at_commas(s);
    let ghost all = parts_of(s.spec_bytes());
    let mut origins: Vec<String> = Vec::new();
    let mut i: usize = 0;
    while i < parts.len()
        invariant
            i <= parts@.len(),
            all == parts_of(s.spec_bytes()),
            strs_bytes(parts@) == all,
            texts_bytes(origins@) == all.subrange(0, i as int),
            forall|j: int| 0 <= j < i ==> !allows_all(#[trigger] all[j]),
        decreases parts@.len() - i,
    {
        let part: &str = parts[i];
        assert(strs_bytes(parts@)[i as int] == part.spec_bytes());
        if bytes_eq(part.as_bytes(), "all".as_bytes()) || bytes_eq(part.as_bytes(), "*".as_bytes()) {
            return Cors::All;
        }
        let ghost before = texts_bytes(origins@);
        origins.push(part.to_owned());
        assert(texts_bytes(origins@) =~= before.push(part.spec_bytes()));
        assert(all.subrange(0, i + 1) =~= all.subrange(0, i as int).push(all[i as int]));
        i += 1;
    }
    assert(all.subrange(0, parts@.len() as int) == all);
    Cors::List(origins)
}

} // verus!
