//! The configuration of the switch: where its configuration file lives, and the
//! configuration it uses with the development parameters.
//!
//! The configuration file is `<base_path>/conf/switch.toml`, for example:
//!
//! ```text
//! [shards]
//! [shards.0]
//! rpc = ["http://127.0.0.1:9933"]
//!
//! [shards.1]
//! rpc = ["http://127.0.0.1:19933"]
//! ```

use vstd::prelude::*;
use vstd::string::*;
use crate::decimal::{decimal, to_decimal};

verus! {

/// The RPC endpoints of one shard.
#[derive(Clone, Debug)]
pub struct Shard {
    pub rpc: Vec<String>,
}

/// The switch configuration: each shard under the decimal text of its number.
/// No key occurs twice.
#[derive(Clone, Debug)]
pub struct SwitchConf {
    pub shards: Vec<(String, Shard)>,
}

/// What the development parameters give of one shard.
#[derive(Clone, Copy, Debug, PartialEq, Eq, Structural)]
pub struct DevShardParams {
    pub shard_num: u16,
    pub rpc_port: u16,
}

/// The RPC endpoint on the local host at `port`.
pub open spec fn local_rpc(port: u16) -> Seq<char> {
    "http://localhost:"@ + decimal(port as nat)
}

/// The development configuration as a map from a shard key to its one RPC
/// endpoint: each shard's parameters in turn, a later one for the same shard
/// number replacing an earlier.
pub open spec fn dev_shards(params: Seq<DevShardParams>) -> Map<Seq<char>, Seq<char>>
    decreases params.len(),
{
    if params.len() == 0 {
        Map::empty()
    } else {
        dev_shards(params.drop_last()).insert(
            decimal(params.last().shard_num as nat),
            local_rpc(params.last().rpc_port),
        )
    }
}

/// No key occurs twice in `shards`.
pub open spec fn keys_unique(shards: Seq<(String, Shard)>) -> bool {
    forall|i: int, j: int|
        0 <= i < shards.len() && 0 <= j < shards.len() && i != j ==> #[trigger] shards[i].0@
            != #[trigger] shards[j].0@
}

/// `shards` holds exactly the entries of `m`, each with a one-endpoint list.
pub open spec fn shards_match(shards: Seq<(String, Shard)>, m: Map<Seq<char>, Seq<char>>) -> bool {
    &&& keys_unique(shards)
    &&& forall|k: Seq<char>|
        #[trigger] m.contains_key(k) <==> exists|i: int| 0 <= i < shards.len() && #[trigger] shards[i].0@ == k
    &&& forall|i: int|
        0 <= i < shards.len() ==> #[trigger] shards[i].1.rpc@.len() == 1
            && shards[i].1.rpc@[0]@ == m[shards[i].0@]
}

/// The switch configuration that the development parameters give: for each
/// shard, under the decimal text of its number, the RPC endpoint on the local
/// host at its RPC port; where two parameters name one shard, the later wins.
pub fn get_dev_config(params: &Vec<DevShardParams>) -> (conf: SwitchConf)
    ensures
        shards_match(conf.shards@, dev_shards(params@)),
{
    let mut shards: Vec<(String, Shard)> = Vec::new();
    let mut i: usize = 0;
    assert(params@.take(0) =~= Seq::<DevShardParams>::empty());
    while i < params.len()
        invariant
            i <= params.len(),
            shards_match(shards@, dev_shards(params@.take(i as int))),
        decreases params.len() - i,
    {
        let p = params[i];
        let key = to_decimal(p.shard_num as u64);
        let mut url = String::from_str("http://localhost:");
        url.append(to_decimal(p.rpc_port as u64).as_str());
        let ghost m = dev_shards(params@.take(i as int));
        let ghost m2 = m.insert(key@, url@);
        assert(params@.take(i + 1).drop_last() =~= params@.take(i as int));
        assert(params@.take(i + 1).last() == p);
        assert(dev_shards(params@.take(i + 1)) == m2);
        let mut rpc: Vec<String> = Vec::new();
        rpc.push(url);
        let shard = Shard { rpc };
        let mut j: usize = 0;
        let mut found = false;
        while j < shards.len()
            invariant_except_break
                !found,
            invariant
                j <= shards.len(),
                forall|k: int| 0 <= k < j ==> #[trigger] shards@[k].0@ != key@,
            ensures
                found ==> j < shards.len() && shards@[j as int].0@ == key@,
                !found ==> j == shards.len(),
            decreases shards.len() - j,
        {
            if shards[j].0 == key {
                found = true;
                break;
            }
            j = j + 1;
        }
        if found {
            let ghost old_shards = shards@;
            assert(shards@[j as int].0@ == key@);
            shards.set(j, (key, shard));
            assert forall|k: Seq<char>| #[trigger] m2.contains_key(k) <==> exists|x: int|
                0 <= x < shards@.len() && #[trigger] shards@[x].0@ == k by {
                if k == key@ {
                    assert(shards@[j as int].0@ == k);
                }
                if m2.contains_key(k) && k != key@ {
                    assert(m.contains_key(k));
                    let x = choose|x: int| 0 <= x < old_shards.len() && #[trigger] old_shards[x].0@ == k;
                    assert(x != j);
                    assert(shards@[x] == old_shards[x]);
                    assert(shards@[x].0@ == k);
                }
                if exists|x: int| 0 <= x < shards@.len() && #[trigger] shards@[x].0@ == k {
                    let x = choose|x: int| 0 <= x < shards@.len() && #[trigger] shards@[x].0@ == k;
                    if x != j {
                        assert(shards@[x] == old_shards[x]);
                        assert(old_shards[x].0@ == k);
                    }
                }
            }
        } else {
            let ghost old_shards = shards@;
            shards.push((key, shard));
            assert forall|k: Seq<char>| #[trigger] m2.contains_key(k) <==> exists|x: int|
                0 <= x < shards@.len() && #[trigger] shards@[x].0@ == k by {
                if m2.contains_key(k) && k != key@ {
                    let x = choose|x: int| 0 <= x < old_shards.len() && #[trigger] old_shards[x].0@ == k;
                    assert(shards@[x].0@ == k);
                }
                if k == key@ {
                    assert(shards@[old_shards.len() as int].0@ == k);
                }
                if exists|x: int| 0 <= x < shards@.len() && #[trigger] shards@[x].0@ == k {
                    let x = choose|x: int| 0 <= x < shards@.len() && #[trigger] shards@[x].0@ == k;
                    if x < old_shards.len() {
                        assert(old_shards[x].0@ == k);
                    }
                }
            }
        }
        i = i + 1;
    }
    assert(params@.take(params.len() as int) =~= params@);
    SwitchConf { shards }
}

/// Whether `c` separates path components where `separator` is the platform's
/// main separator: `/` always does, and so does the main separator.
pub open spec fn is_path_sep(c: char, separator: char) -> bool {
    c == '/' || c == separator
}

/// Whether `base` is a bare drive such as `C:` (an ASCII letter and a colon).
pub open spec fn is_bare_drive(base: Seq<char>) -> bool {
    &&& base.len() == 2
    &&& base[1] == ':'
    &&& ('a' <= base[0] <= 'z' || 'A' <= base[0] <= 'Z')
}

/// Whether `base` starts with the Windows verbatim prefix `\\?\`.
pub open spec fn is_verbatim(base: Seq<char>) -> bool {
    &&& base.len() >= 4
    &&& base[0] == '\\'
    &&& base[1] == '\\'
    &&& base[2] == '?'
    &&& base[3] == '\\'
}

/// `base` joined with the relative path `name` as `PathBuf::push` joins them on
/// a platform whose main separator is `separator` (`\` stands for Windows): the
/// main separator between them, except where `base` is empty, already ends in
/// a separator, or (on Windows) is a bare drive.
pub open spec fn join_path(base: Seq<char>, name: Seq<char>, separator: char) -> Seq<char> {
    if base.len() == 0 || is_path_sep(base.last(), separator) || (separator == '\\'
        && is_bare_drive(base)) {
        base + name
    } else {
        base + seq![separator] + name
    }
}

/// The directory of the configuration file under the base path `base_path`:
/// its subdirectory `conf`, joined as `PathBuf::push` joins it on a platform
/// whose main separator (`std::path::MAIN_SEPARATOR`) is `separator`. A Windows
/// base path with a verbatim prefix, which `PathBuf::push` normalises, is not
/// taken.
pub fn conf_path(base_path: &str, separator: char) -> (p: String)
    requires
        separator == '/' || separator == '\\',
        separator == '\\' ==> !is_verbatim(base_path@),
    ensures
        p@ == join_path(base_path@, "conf"@, separator),
{
    let mut path = String::from_str(base_path);
    let n = base_path.unicode_len();
    let mut need_sep = false;
    if n > 0 {
        let last = base_path.get_char(n - 1);
        need_sep = last != '/' && last != separator;
        if need_sep && separator == '\\' && n == 2 {
            let drive = base_path.get_char(0);
            if base_path.get_char(1) == ':' && (('a' <= drive && drive <= 'z') || ('A' <= drive
                && drive <= 'Z')) {
                need_sep = false;
            }
        }
    }
    proof {
        reveal_strlit("/");
        reveal_strlit("\\");
    }
    if need_sep {
        if separator == '/' {
            path.append("/");
        } else {
            path.append("\\");
        }
    }
    path.append("conf");
    path
}

/// The development configuration lists exactly the shards that the parameters
/// name: each under the decimal text of its number, and no other key.
pub proof fn lemma_dev_shards_keys(params: Seq<DevShardParams>)
    ensures
        forall|i: int|
            0 <= i < params.len() ==> dev_shards(params).contains_key(
                decimal(#[trigger] params[i].shard_num as nat),
            ),
        forall|k: Seq<char>|
            #[trigger] dev_shards(params).contains_key(k) ==> exists|i: int|
                0 <= i < params.len() && k == decimal(#[trigger] params[i].shard_num as nat),
    decreases params.len(),
{
    if params.len() > 0 {
        let init = params.drop_last();
        lemma_dev_shards_keys(init);
        assert forall|i: int| 0 <= i < params.len() implies dev_shards(params).contains_key(
            decimal(#[trigger] params[i].shard_num as nat),
        ) by {
            if i < params.len() - 1 {
                assert(init[i] == params[i]);
            }
        }
        assert forall|k: Seq<char>| #[trigger] dev_shards(params).contains_key(k) implies exists|
            i: int,
        | 0 <= i < params.len() && k == decimal(#[trigger] params[i].shard_num as nat) by {
            if k != decimal(params.last().shard_num as nat) {
                assert(dev_shards(init).contains_key(k));
                let i = choose|i: int|
                    0 <= i < init.len() && k == decimal(#[trigger] init[i].shard_num as nat);
                assert(params[i] == init[i]);
            } else {
                assert(params[params.len() - 1] == params.last());
            }
        }
    }
}

} // verus!
