//! The node's own command-line parameters, and how they settle the node's
//! custom configuration: the address prefix, the shard, the coinbase of a
//! block author and the boot nodes of its shard.

use vstd::prelude::*;
use vstd::string::*;
use crate::decimal::{decimal, to_decimal};
use crate::digest::ScaleOut;

verus! {

/// The node's own command-line parameters.
#[derive(Clone, Debug, Default)]
pub struct YeeCliConfig {
    /// The miner's coinbase address for block authoring.
    pub coinbase: Option<String>,
    /// The shard number to serve.
    pub shard_num: u16,
    /// The URLs of the boot-node routers.
    pub bootnodes_routers: Vec<String>,
    /// The TCP port of the foreign peer-to-peer protocol.
    pub foreign_port: Option<u16>,
    /// Whether to use the development parameters.
    pub dev_params: bool,
    /// Which set of development parameters to use.
    pub dev_params_num: Option<u16>,
    /// Whether to mine.
    pub mine: bool,
}

/// The human-readable prefix of addresses: that of the main network or that of
/// a test network.
#[derive(Clone, Copy, Debug, PartialEq, Eq, Structural)]
pub enum Hrp {
    Mainnet,
    Testnet,
}

/// The address prefix of a chain: the main network's for the chain "main", a
/// test network's for any other.
pub open spec fn hrp_for(chain_spec_id: Seq<char>) -> Hrp {
    if chain_spec_id == "main"@ {
        Hrp::Mainnet
    } else {
        Hrp::Testnet
    }
}

/// The address prefix of the chain whose chain specification has this id.
pub fn get_hrp(chain_spec_id: &str) -> (h: Hrp)
    ensures
        h == hrp_for(chain_spec_id@),
{
    let id = String::from_str(chain_spec_id);
    let main = String::from_str("main");
    if id == main {
        Hrp::Mainnet
    } else {
        Hrp::Testnet
    }
}

/// The boot nodes of one shard, as a boot-node router gives them.
#[derive(Clone, Debug)]
pub struct RouterShard {
    /// Boot nodes of the shard's own network.
    pub native: Vec<String>,
    /// Boot nodes of the foreign network.
    pub foreign: Vec<String>,
}

/// What a boot-node router answers: for each shard, under the decimal text of
/// its number, its boot nodes. The router sends a map, so no key occurs twice
/// (`router_keys_unique`); the functions that read an answer require it.
#[derive(Clone, Debug)]
pub struct BootnodesRouterConf {
    pub shards: Vec<(String, RouterShard)>,
}

/// The entry of `shards` under `key` (the first one, should there be several).
pub open spec fn router_shard(shards: Seq<(String, RouterShard)>, key: Seq<char>) -> Option<
    RouterShard,
>
    decreases shards.len(),
{
    if shards.len() == 0 {
        None
    } else if shards[0].0@ == key {
        Some(shards[0].1)
    } else {
        router_shard(shards.drop_first(), key)
    }
}

/// No shard key occurs twice in `shards`, as in the router's map.
pub open spec fn router_keys_unique(shards: Seq<(String, RouterShard)>) -> bool {
    forall|i: int, j: int|
        0 <= i < shards.len() && 0 <= j < shards.len() && i != j ==> #[trigger] shards[i].0@
            != #[trigger] shards[j].0@
}

/// Where no key occurs twice, the entry under a key is the one entry that has
/// it, wherever it stands: the list answers as the router's map does.
pub proof fn lemma_router_shard_is_entry(shards: Seq<(String, RouterShard)>, i: int)
    requires
        router_keys_unique(shards),
        0 <= i < shards.len(),
    ensures
        router_shard(shards, shards[i].0@) == Some(shards[i].1),
    decreases i,
{
    if i > 0 {
        assert(shards[0].0@ != shards[i].0@);
        let rest = shards.drop_first();
        assert(rest[i - 1] == shards[i]);
        assert forall|a: int, b: int|
            0 <= a < rest.len() && 0 <= b < rest.len() && a != b implies #[trigger] rest[a].0@
                != #[trigger] rest[b].0@ by {
            assert(rest[a] == shards[a + 1]);
            assert(rest[b] == shards[b + 1]);
        }
        lemma_router_shard_is_entry(rest, i - 1);
    }
}

/// A copy of a list of strings.
pub fn clone_strings(v: &Vec<String>) -> (r: Vec<String>)
    ensures
        r@ == v@,
{
    let mut r: Vec<String> = Vec::new();
    let mut i: usize = 0;
    while i < v.len()
        invariant
            i <= v.len(),
            r@ == v@.take(i as int),
        decreases v.len() - i,
    {
        r.push(v[i].clone());
        assert(r@ =~= v@.take(i + 1));
        i = i + 1;
    }
    assert(v@.take(v.len() as int) =~= v@);
    r
}

/// The native boot nodes of shard `shard_num` in a router's answer, whose
/// shard keys are unique as in the router's map.
pub fn get_native_bootnodes(conf: &BootnodesRouterConf, shard_num: u16) -> (r: Result<
    Vec<String>,
    String,
>)
    requires
        router_keys_unique(conf.shards@),
    ensures
        match router_shard(conf.shards@, decimal(shard_num as nat)) {
            Some(shard) => r matches Ok(nodes) && nodes@ == shard.native@,
            None => r matches Err(m) && m@ == "Not found shard in bootnodes_router_conf"@,
        },
        r is Ok ==> exists|i: int|
            0 <= i < conf.shards@.len() && #[trigger] conf.shards@[i].0@ == decimal(shard_num as nat)
                && r->Ok_0@ == conf.shards@[i].1.native@,
        r is Err <==> forall|i: int|
            0 <= i < conf.shards@.len() ==> #[trigger] conf.shards@[i].0@ != decimal(
                shard_num as nat,
            ),
{
    let key = to_decimal(shard_num as u64);
    let mut i: usize = 0;
    assert(conf.shards@.skip(0) =~= conf.shards@);
    while i < conf.shards.len()
        invariant
            i <= conf.shards.len(),
            key@ == decimal(shard_num as nat),
            router_shard(conf.shards@, key@) == router_shard(conf.shards@.skip(i as int), key@),
            forall|k: int| 0 <= k < i ==> #[trigger] conf.shards@[k].0@ != key@,
        decreases conf.shards.len() - i,
    {
        assert(conf.shards@.skip(i as int).drop_first() =~= conf.shards@.skip(i + 1));
        if conf.shards[i].0 == key {
            let nodes = clone_strings(&conf.shards[i].1.native);
            assert(conf.shards@[i as int].0@ == decimal(shard_num as nat));
            return Ok(nodes);
        }
        i = i + 1;
    }
    Err(String::from_str("Not found shard in bootnodes_router_conf"))
}

/// Why the coinbase of a block author is refused.
#[derive(Clone, Debug)]
pub enum CustomArgsError {
    /// No coinbase was given.
    CoinbaseNotFound,
    /// The coinbase is not a valid address; the text describes why.
    InvalidCoinbase(String),
    /// The coinbase's address prefix is not the chain's.
    InvalidCoinbaseHrp,
    /// The coinbase does not belong to the node's shard.
    CoinbaseShardMismatch,
    /// The coinbase does not belong to the node's shard after the scale-out.
    CoinbaseScaleOutShardMismatch,
}

impl CustomArgsError {
    /// The message that the node reports for this error.
    pub fn message(&self) -> (s: String)
        ensures
            s@ == match self {
                CustomArgsError::CoinbaseNotFound => "Coinbase not found"@,
                CustomArgsError::InvalidCoinbase(why) => "Invalid coinbase: "@ + why@,
                CustomArgsError::InvalidCoinbaseHrp => "Invalid coinbase hrp"@,
                CustomArgsError::CoinbaseShardMismatch =>
                    "Invalid coinbase: shard num is not accordant"@,
                CustomArgsError::CoinbaseScaleOutShardMismatch =>
                    "Invalid coinbase: shard num is not accordant after scaling out"@,
            },
    {
        match self {
            CustomArgsError::CoinbaseNotFound => String::from_str("Coinbase not found"),
            CustomArgsError::InvalidCoinbase(why) => {
                let mut s = String::from_str("Invalid coinbase: ");
                s.append(why.as_str());
                s
            },
            CustomArgsError::InvalidCoinbaseHrp => String::from_str("Invalid coinbase hrp"),
            CustomArgsError::CoinbaseShardMismatch => String::from_str(
                "Invalid coinbase: shard num is not accordant",
            ),
            CustomArgsError::CoinbaseScaleOutShardMismatch => String::from_str(
                "Invalid coinbase: shard num is not accordant after scaling out",
            ),
        }
    }
}

/// `r` is a possible outcome of checking the coinbase text `coinbase` of a
/// block author against the chain's prefix `hrp` and the decided shard
/// `(shard_num, shard_count, scale_out)`: `parse` decodes the text into an
/// account and its prefix, `shard_num_for` gives an account's shard number for a
/// shard count.
pub open spec fn coinbase_outcome<
    A,
    P: Fn(String) -> Result<(A, Hrp), String>,
    S: Fn(&A, u16) -> u16,
>(
    coinbase: Option<String>,
    hrp: Hrp,
    shard: (u16, u16, Option<ScaleOut>),
    parse: P,
    shard_num_for: S,
    r: Result<A, CustomArgsError>,
) -> bool {
    match coinbase {
        None => r matches Err(CustomArgsError::CoinbaseNotFound),
        Some(text) => exists|parsed: Result<(A, Hrp), String>|
            #[trigger] parse.ensures((text,), parsed) && match parsed {
                Err(why) => r matches Err(CustomArgsError::InvalidCoinbase(w)) && w@ == why@,
                Ok((account, account_hrp)) => if account_hrp != hrp {
                    r matches Err(CustomArgsError::InvalidCoinbaseHrp)
                } else {
                    exists|n: u16|
                        #[trigger] shard_num_for.ensures((&account, shard.1), n) && if n
                            != shard.0 {
                            r matches Err(CustomArgsError::CoinbaseShardMismatch)
                        } else {
                            match shard.2 {
                                None => r matches Ok(a) && a == account,
                                Some(so) => exists|m: u16|
                                    #[trigger] shard_num_for.ensures(
                                        (&account, (shard.1 * 2) as u16),
                                        m,
                                    ) && if m != so.shard_num {
                                        r matches Err(
                                            CustomArgsError::CoinbaseScaleOutShardMismatch,
                                        )
                                    } else {
                                        r matches Ok(a) && a == account
                                    },
                            }
                        }
                },
            },
    }
}

/// The check of the coinbase text `coinbase` can reach the doubling of the shard
/// count: a scale-out is pending, and some outcome of `parse` on the text is an
/// account of the prefix `hrp` for which some outcome of `shard_num_for` under
/// the present shard count is the node's shard.
pub open spec fn doubling_reached<
    A,
    P: Fn(String) -> Result<(A, Hrp), String>,
    S: Fn(&A, u16) -> u16,
>(
    coinbase: Option<String>,
    hrp: Hrp,
    shard: (u16, u16, Option<ScaleOut>),
    parse: P,
    shard_num_for: S,
) -> bool {
    &&& shard.2 is Some
    &&& coinbase is Some
    &&& exists|parsed: Result<(A, Hrp), String>|
        #[trigger] parse.ensures((coinbase->Some_0,), parsed) && parsed is Ok && parsed->Ok_0.1
            == hrp && exists|n: u16|
            #[trigger] shard_num_for.ensures((&parsed->Ok_0.0, shard.1), n) && n == shard.0
}

/// Checks the coinbase of a block author: it must be given, decode (through
/// `parse`) to an account of the chain's prefix `hrp`, and belong (through
/// `shard_num_for`) to the node's shard, and after a scale-out to the target
/// shard under the doubled shard count. Gives the account.
pub fn check_coinbase<A, P: Fn(String) -> Result<(A, Hrp), String>, S: Fn(&A, u16) -> u16>(
    coinbase: Option<String>,
    hrp: Hrp,
    shard: (u16, u16, Option<ScaleOut>),
    parse: P,
    shard_num_for: S,
) -> (r: Result<A, CustomArgsError>)
    requires
        doubling_reached(coinbase, hrp, shard, parse, shard_num_for) ==> shard.1 * 2 <= u16::MAX,
        forall|text: String| parse.requires((text,)),
        forall|a: &A, count: u16| shard_num_for.requires((a, count)),
    ensures
        coinbase_outcome(coinbase, hrp, shard, parse, shard_num_for, r),
{
    let text = match coinbase {
        Some(text) => text,
        None => {
            return Err(CustomArgsError::CoinbaseNotFound);
        },
    };
    let parsed = parse(text);
    let ghost parsed_v = parsed;
    let (account, account_hrp) = match parsed {
        Ok(v) => v,
        Err(why) => {
            return Err(CustomArgsError::InvalidCoinbase(why));
        },
    };
    if account_hrp != hrp {
        return Err(CustomArgsError::InvalidCoinbaseHrp);
    }
    let (shard_num, shard_count, scale_out) = shard;
    let n = shard_num_for(&account, shard_count);
    if n != shard_num {
        return Err(CustomArgsError::CoinbaseShardMismatch);
    }
    if let Some(so) = scale_out {
        assert(doubling_reached(coinbase, hrp, shard, parse, shard_num_for)) by {
            assert(parsed_v->Ok_0.0 == account);
            assert(shard_num_for.ensures((&parsed_v->Ok_0.0, shard.1), n));
        }
        let scale_out_count = shard_count * 2;
        let m = shard_num_for(&account, scale_out_count);
        if m != so.shard_num {
            return Err(CustomArgsError::CoinbaseScaleOutShardMismatch);
        }
    }
    Ok(account)
}

/// The node's custom configuration that its parameters settle. `A` is the
/// account type of a coinbase.
#[derive(Clone, Debug)]
pub struct CustomConfig<A> {
    pub hrp: Hrp,
    pub shard_num: u16,
    pub shard_count: u16,
    pub scale_out: Option<ScaleOut>,
    pub coinbase: A,
    pub bootnodes_router_conf: Option<BootnodesRouterConf>,
    pub foreign_port: Option<u16>,
    pub mine: bool,
}

/// The boot nodes and the router answer after the routers `routers` were asked
/// (through `fetch`, and only where there are any) for the boot nodes of shard
/// `shard_num`: an answer is kept, and where it lists the shard its native boot
/// nodes replace the old ones; without an answer both stay as they were.
pub open spec fn boot_nodes_outcome<R: Fn(&Vec<String>) -> Result<BootnodesRouterConf, String>>(
    routers: &Vec<String>,
    shard_num: u16,
    fetch: R,
    old_conf: Option<BootnodesRouterConf>,
    old_nodes: Seq<String>,
    new_conf: Option<BootnodesRouterConf>,
    new_nodes: Seq<String>,
) -> bool {
    if routers@.len() == 0 {
        new_conf == old_conf && new_nodes == old_nodes
    } else {
        exists|answer: Result<BootnodesRouterConf, String>|
            #[trigger] fetch.ensures((routers,), answer) && match answer {
                Err(_) => new_conf == old_conf && new_nodes == old_nodes,
                Ok(conf) => new_conf == Some(conf) && new_nodes == match router_shard(
                    conf.shards@,
                    decimal(shard_num as nat),
                ) {
                    Some(shard) => shard.native@,
                    None => old_nodes,
                },
            }
    }
}

/// The routers, asked through `fetch`, can give one answer only: `answer`.
pub open spec fn answers_only<R: Fn(&Vec<String>) -> Result<BootnodesRouterConf, String>>(
    fetch: R,
    routers: &Vec<String>,
    answer: BootnodesRouterConf,
) -> bool {
    forall|a: Result<BootnodesRouterConf, String>|
        #[trigger] fetch.ensures((routers,), a) ==> a == Ok::<BootnodesRouterConf, String>(answer)
}

/// Asks the boot-node routers `routers` (through `fetch`, and only where there
/// are any) for their configuration, keeps it in `conf`, and takes the native
/// boot nodes of shard `shard_num` from it into `boot_nodes` where it lists the
/// shard. A failed request changes nothing.
pub fn apply_bootnodes_routers<R: Fn(&Vec<String>) -> Result<BootnodesRouterConf, String>>(
    routers: &Vec<String>,
    shard_num: u16,
    fetch: R,
    conf: &mut Option<BootnodesRouterConf>,
    boot_nodes: &mut Vec<String>,
)
    requires
        fetch.requires((routers,)),
        forall|answer: Result<BootnodesRouterConf, String>|
            #[trigger] fetch.ensures((routers,), answer) ==> (answer matches Ok(conf)
                ==> router_keys_unique(conf.shards@)),
    ensures
        boot_nodes_outcome(
            routers,
            shard_num,
            fetch,
            *old(conf),
            old(boot_nodes)@,
            *final(conf),
            final(boot_nodes)@,
        ),
        forall|answer: BootnodesRouterConf, i: int|
            routers@.len() > 0 && answers_only(fetch, routers, answer) && 0 <= i
                < answer.shards@.len() && #[trigger] answer.shards@[i].0@ == decimal(
                shard_num as nat,
            ) ==> final(boot_nodes)@ == answer.shards@[i].1.native@ && *final(conf) == Some(
                answer,
            ),
{
    if routers.len() > 0 {
        let answer = fetch(routers);
        let ghost got = answer;
        match answer {
            Ok(router_conf) => {
                let found = get_native_bootnodes(&router_conf, shard_num);
                let ghost found_v = found;
                match found {
                    Ok(nodes) => {
                        *boot_nodes = nodes;
                    },
                    Err(_) => {},
                }
                *conf = Some(router_conf);
                assert forall|c: BootnodesRouterConf, i: int|
                    routers@.len() > 0 && answers_only(fetch, routers, c) && 0 <= i
                        < c.shards@.len() && #[trigger] c.shards@[i].0@ == decimal(
                        shard_num as nat,
                    ) implies boot_nodes@ == c.shards@[i].1.native@ && *conf == Some(c) by {
                    assert(fetch.ensures((routers,), got));
                    assert(got == Ok::<BootnodesRouterConf, String>(c));
                    assert(found_v is Ok);
                    let j = choose|j: int|
                        0 <= j < c.shards@.len() && #[trigger] c.shards@[j].0@ == decimal(
                            shard_num as nat,
                        ) && found_v->Ok_0@ == c.shards@[j].1.native@;
                    assert(j == i);
                }
            },
            Err(_) => {
                assert forall|c: BootnodesRouterConf, i: int|
                    routers@.len() > 0 && answers_only(fetch, routers, c) && 0 <= i
                        < c.shards@.len() && #[trigger] c.shards@[i].0@ == decimal(
                        shard_num as nat,
                    ) implies boot_nodes@ == c.shards@[i].1.native@ && *conf == Some(c) by {
                    assert(fetch.ensures((routers,), got));
                }
            },
        }
    }
}

/// Settles the custom configuration `custom`, and the network's boot nodes
/// `boot_nodes`, from the parameters `args` and the decided shard `shard`.
///
/// The address prefix follows the chain specification's id, and the shard
/// fields take `shard`. A block author (`is_authority`) must have a valid
/// coinbase (see `check_coinbase`), which becomes the configuration's; where it
/// has none, the error is returned with only the prefix and the shard settled.
/// Then the boot-node routers are asked for the shard's boot nodes (see
/// `apply_bootnodes_routers`), and the foreign port and the mining switch are
/// taken from `args`.
pub fn process_custom_args<
    A,
    P: Fn(String) -> Result<(A, Hrp), String>,
    S: Fn(&A, u16) -> u16,
    R: Fn(&Vec<String>) -> Result<BootnodesRouterConf, String>,
>(
    custom: &mut CustomConfig<A>,
    boot_nodes: &mut Vec<String>,
    chain_spec_id: &str,
    is_authority: bool,
    args: &YeeCliConfig,
    shard: (u16, u16, Option<ScaleOut>),
    parse: P,
    shard_num_for: S,
    fetch: R,
) -> (r: Result<(), CustomArgsError>)
    requires
        is_authority && doubling_reached(
            args.coinbase,
            hrp_for(chain_spec_id@),
            shard,
            parse,
            shard_num_for,
        ) ==> shard.1 * 2 <= u16::MAX,
        forall|text: String| parse.requires((text,)),
        forall|a: &A, count: u16| shard_num_for.requires((a, count)),
        fetch.requires((&args.bootnodes_routers,)),
        forall|answer: Result<BootnodesRouterConf, String>|
            #[trigger] fetch.ensures((&args.bootnodes_routers,), answer) ==> (answer matches Ok(conf)
                ==> router_keys_unique(conf.shards@)),
    ensures
        final(custom).hrp == hrp_for(chain_spec_id@),
        final(custom).shard_num == shard.0,
        final(custom).shard_count == shard.1,
        final(custom).scale_out == shard.2,
        ({
            let accepted = exists|c: Result<A, CustomArgsError>|
                #[trigger] coinbase_outcome(
                    args.coinbase,
                    hrp_for(chain_spec_id@),
                    shard,
                    parse,
                    shard_num_for,
                    c,
                ) && c is Ok && final(custom).coinbase == c->Ok_0;
            let refused = exists|c: Result<A, CustomArgsError>|
                #[trigger] coinbase_outcome(
                    args.coinbase,
                    hrp_for(chain_spec_id@),
                    shard,
                    parse,
                    shard_num_for,
                    c,
                ) && c is Err && r == Err::<(), CustomArgsError>(c->Err_0);
            let settled = r is Ok && final(custom).foreign_port == args.foreign_port
                && final(custom).mine == args.mine && boot_nodes_outcome(
                &args.bootnodes_routers,
                shard.0,
                fetch,
                old(custom).bootnodes_router_conf,
                old(boot_nodes)@,
                final(custom).bootnodes_router_conf,
                final(boot_nodes)@,
            );
            let untouched = final(custom).coinbase == old(custom).coinbase
                && final(custom).bootnodes_router_conf == old(custom).bootnodes_router_conf
                && final(custom).foreign_port == old(custom).foreign_port
                && final(custom).mine == old(custom).mine && final(boot_nodes)@ == old(
                boot_nodes,
            )@;
            &&& is_authority ==> (accepted && settled) || (refused && untouched)
            &&& !is_authority ==> settled && final(custom).coinbase == old(custom).coinbase
        }),
{
    let hrp = get_hrp(chain_spec_id);
    custom.hrp = hrp;
    custom.shard_num = shard.0;
    custom.shard_count = shard.1;
    custom.scale_out = shard.2;
    if is_authority {
        let coinbase = match &args.coinbase {
            Some(text) => Some(text.clone()),
            None => None,
        };
        let checked = check_coinbase(coinbase, hrp, shard, parse, shard_num_for);
        match checked {
            Ok(account) => {
                custom.coinbase = account;
            },
            Err(e) => {
                return Err(e);
            },
        }
    }
    apply_bootnodes_routers(
        &args.bootnodes_routers,
        custom.shard_num,
        fetch,
        &mut custom.bootnodes_router_conf,
        boot_nodes,
    );
    custom.foreign_port = args.foreign_port;
    custom.mine = args.mine;
    Ok(())
}

/// When the routers can give one answer only and it lists the node's shard,
/// the boot nodes afterwards are exactly that shard's native list, entry for
/// entry, whatever boot nodes there were before; the answer is kept.
pub proof fn lemma_router_answer_replaces_boot_nodes<
    R: Fn(&Vec<String>) -> Result<BootnodesRouterConf, String>,
>(
    routers: &Vec<String>,
    shard_num: u16,
    fetch: R,
    answer: BootnodesRouterConf,
    i: int,
    old_conf: Option<BootnodesRouterConf>,
    old_nodes: Seq<String>,
    new_conf: Option<BootnodesRouterConf>,
    new_nodes: Seq<String>,
)
    requires
        routers@.len() > 0,
        answers_only(fetch, routers, answer),
        router_keys_unique(answer.shards@),
        0 <= i < answer.shards@.len(),
        answer.shards@[i].0@ == decimal(shard_num as nat),
        boot_nodes_outcome(routers, shard_num, fetch, old_conf, old_nodes, new_conf, new_nodes),
    ensures
        new_nodes.len() == answer.shards@[i].1.native@.len(),
        forall|j: int|
            0 <= j < new_nodes.len() ==> new_nodes[j] == answer.shards@[i].1.native@[j],
        new_conf == Some(answer),
{
    lemma_router_shard_is_entry(answer.shards@, i);
}

} // verus!
