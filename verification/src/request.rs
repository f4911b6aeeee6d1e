//! The request for one witness-generation run and the command line that
//! carries it to the witness generator.

use vstd::prelude::*;
use vstd::string::*;
use crate::decimal::{decimal_text, push_decimal};
use crate::encoding::{hash_string, hash_text};

verus! {

/// One witness-generation run, as the witness generator is to be told of it.
///
/// The four hashes, the block number and the chain id are always passed on.
/// The addresses, the data directory and the execution mode are passed on
/// only where they are given, and `server` only where it is set.
#[derive(Clone, Debug, PartialEq, Eq)]
pub struct HostCli {
    /// Hash of the L1 head block.
    pub l1_head: [u8; 32],
    /// Hash of the agreed L2 head block.
    pub l2_head: [u8; 32],
    /// Output root agreed on for the L2 head.
    pub l2_output_root: [u8; 32],
    /// Output root claimed for the L2 block number.
    pub l2_claim: [u8; 32],
    /// Number of the L2 block that the claim is about.
    pub l2_block_number: u64,
    /// Chain id of the L2.
    pub l2_chain_id: u64,
    /// Address of the L2 node, if one is to be used.
    pub l2_node_address: Option<String>,
    /// Address of the L1 node, if one is to be used.
    pub l1_node_address: Option<String>,
    /// Address of the L1 beacon node, if one is to be used.
    pub l1_beacon_address: Option<String>,
    /// Directory that holds the preimages, if one is to be used.
    pub data_dir: Option<String>,
    /// Command of the client program to run, if any.
    pub exec_command: Option<String>,
    /// Whether the witness generator runs as a preimage server.
    pub server: bool,
}

/// A flag with a value: the flag and the value as two tokens.
/// Nothing where there is no value.
pub open spec fn optional_pair(flag: Seq<char>, value: Option<String>) -> Seq<Seq<char>> {
    match value {
        Some(v) => seq![flag, v@],
        None => Seq::empty(),
    }
}

impl HostCli {
    /// The six tokens that every command line starts with, each a flag, `=`
    /// and the value.
    pub open spec fn mandatory_arguments(self) -> Seq<Seq<char>> {
        seq![
            "--l1-head="@ + hash_text(self.l1_head@),
            "--l2-head="@ + hash_text(self.l2_head@),
            "--l2-output-root="@ + hash_text(self.l2_output_root@),
            "--l2-claim="@ + hash_text(self.l2_claim@),
            "--l2-block-number="@ + decimal_text(self.l2_block_number as nat),
            "--l2-chain-id="@ + decimal_text(self.l2_chain_id as nat),
        ]
    }

    /// The tokens of the optional fields that are present, in their fixed
    /// order.
    pub open spec fn optional_arguments(self) -> Seq<Seq<char>> {
        optional_pair("--l2-node-address"@, self.l2_node_address) + optional_pair(
            "--l1-node-address"@,
            self.l1_node_address,
        ) + optional_pair("--l1-beacon-address"@, self.l1_beacon_address) + optional_pair(
            "--data-dir"@,
            self.data_dir,
        ) + optional_pair("--exec"@, self.exec_command)
    }

    /// The bare `--server` token where the flag is set, nothing otherwise.
    pub open spec fn server_argument(self) -> Seq<Seq<char>> {
        if self.server {
            seq!["--server"@]
        } else {
            Seq::empty()
        }
    }

    /// The whole command line of the request.
    pub open spec fn arguments(self) -> Seq<Seq<char>> {
        self.mandatory_arguments() + self.optional_arguments() + self.server_argument()
    }

    /// Whether none of the optional fields is given and `server` is not set.
    pub open spec fn is_minimal(self) -> bool {
        &&& self.l2_node_address is None
        &&& self.l1_node_address is None
        &&& self.l1_beacon_address is None
        &&& self.data_dir is None
        &&& self.exec_command is None
        &&& !self.server
    }
}

fn push_token(args: &mut Vec<String>, token: String)
    ensures
        final(args).deep_view() == old(args).deep_view().push(token@),
{
    args.push(token);
    assert(args.deep_view() =~= old(args).deep_view().push(token@));
}

fn push_hash(args: &mut Vec<String>, flag: &str, hash: &[u8; 32])
    ensures
        final(args).deep_view() == old(args).deep_view().push(flag@ + hash_text(hash@)),
{
    let mut token = String::from_str(flag);
    let value = hash_string(hash);
    token.append(value.as_str());
    push_token(args, token);
}

fn push_number(args: &mut Vec<String>, flag: &str, n: u64)
    ensures
        final(args).deep_view() == old(args).deep_view().push(flag@ + decimal_text(n as nat)),
{
    let mut token = String::from_str(flag);
    push_decimal(&mut token, n);
    push_token(args, token);
}

fn push_optional(args: &mut Vec<String>, flag: &str, value: &Option<String>)
    ensures
        final(args).deep_view() == old(args).deep_view() + optional_pair(flag@, *value),
{
    match value {
        Some(v) => {
            push_token(args, String::from_str(flag));
            push_token(args, v.clone());
            assert(args.deep_view() =~= old(args).deep_view() + optional_pair(flag@, *value));
        },
        None => {
            assert(args.deep_view() =~= old(args).deep_view() + optional_pair(flag@, *value));
        },
    }
}

/// Writes the request out as the argument list of the witness generator.
///
/// The six mandatory fields come first, each as one `--flag=value` token.
/// Each optional field that is present follows as a `--flag` token and a
/// value token. A bare `--server` closes the list where the flag is set.
pub fn convert_host_cli_to_args(host_cli: &HostCli) -> (args: Vec<String>)
    ensures
        args.deep_view() == host_cli.arguments(),
{
    let mut args: Vec<String> = Vec::new();
    assert(args.deep_view() =~= Seq::<Seq<char>>::empty());
    push_hash(&mut args, "--l1-head=", &host_cli.l1_head);
    push_hash(&mut args, "--l2-head=", &host_cli.l2_head);
    push_hash(&mut args, "--l2-output-root=", &host_cli.l2_output_root);
    push_hash(&mut args, "--l2-claim=", &host_cli.l2_claim);
    push_number(&mut args, "--l2-block-number=", host_cli.l2_block_number);
    push_number(&mut args, "--l2-chain-id=", host_cli.l2_chain_id);
    assert(args.deep_view() =~= host_cli.mandatory_arguments());
    push_optional(&mut args, "--l2-node-address", &host_cli.l2_node_address);
    push_optional(&mut args, "--l1-node-address", &host_cli.l1_node_address);
    push_optional(&mut args, "--l1-beacon-address", &host_cli.l1_beacon_address);
    push_optional(&mut args, "--data-dir", &host_cli.data_dir);
    push_optional(&mut args, "--exec", &host_cli.exec_command);
    assert(args.deep_view() =~= host_cli.mandatory_arguments() + host_cli.optional_arguments());
    if host_cli.server {
        push_token(&mut args, String::from_str("--server"));
    }
    assert(args.deep_view() =~= host_cli.arguments());
    args
}

/// A request without optional fields and without the server flag gives the
/// six mandatory tokens, in their order, and nothing else.
pub proof fn lemma_minimal_request_arguments(request: HostCli)
    requires
        request.is_minimal(),
    ensures
        request.arguments() == request.mandatory_arguments(),
        request.arguments().len() == 6,
{
    assert(request.optional_arguments() =~= Seq::<Seq<char>>::empty());
    assert(request.arguments() =~= request.mandatory_arguments());
}

/// Whatever else a request holds, its first six tokens are the mandatory
/// ones.
pub proof fn lemma_mandatory_arguments_lead(request: HostCli)
    ensures
        request.arguments().len() >= 6,
        request.arguments().subrange(0, 6) == request.mandatory_arguments(),
{
    assert(request.arguments().subrange(0, 6) =~= request.mandatory_arguments());
}

/// With the server flag set, the bare `--server` token is the last one, so
/// that no value follows it.
pub proof fn lemma_server_token_is_last(request: HostCli)
    requires
        request.server,
    ensures
        request.arguments().len() >= 7,
        request.arguments().last() == "--server"@,
{
}

/// Without the server flag, the command line is the mandatory tokens and the
/// optional pairs.
pub proof fn lemma_no_server_token(request: HostCli)
    requires
        !request.server,
    ensures
        request.arguments() == request.mandatory_arguments() + request.optional_arguments(),
{
}

} // verus!
