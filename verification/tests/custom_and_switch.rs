use std::cell::Cell;

use yeechain::custom_param::{
    check_coinbase, get_hrp, get_native_bootnodes, process_custom_args, BootnodesRouterConf,
    CustomArgsError, CustomConfig, Hrp, RouterShard, YeeCliConfig,
};
use yeechain::digest::ScaleOut;
use yeechain::switch_config::{conf_path, get_dev_config, DevShardParams};

#[test]
fn hrp_of_main_and_other_chains() {
    assert_eq!(get_hrp("main"), Hrp::Mainnet);
    assert_eq!(get_hrp("dev"), Hrp::Testnet);
    assert_eq!(get_hrp(""), Hrp::Testnet);
    assert_eq!(get_hrp("mainnet"), Hrp::Testnet);
}

fn router_conf() -> BootnodesRouterConf {
    BootnodesRouterConf {
        shards: vec![
            (
                "0".to_string(),
                RouterShard { native: vec!["/ip4/1.1.1.1/tcp/30333".to_string()], foreign: vec![] },
            ),
            (
                "12".to_string(),
                RouterShard {
                    native: vec!["a".to_string(), "b".to_string()],
                    foreign: vec!["f".to_string()],
                },
            ),
        ],
    }
}

#[test]
fn native_bootnodes_by_decimal_key() {
    let conf = router_conf();
    assert_eq!(get_native_bootnodes(&conf, 12).unwrap(), vec!["a", "b"]);
    assert_eq!(get_native_bootnodes(&conf, 0).unwrap(), vec!["/ip4/1.1.1.1/tcp/30333"]);
    assert_eq!(
        get_native_bootnodes(&conf, 1).unwrap_err(),
        "Not found shard in bootnodes_router_conf"
    );
}

fn parse(text: String) -> Result<(u32, Hrp), String> {
    // "t<n>" is a test-network account n, "m<n>" a main-network one.
    let (h, rest) = text.split_at(1);
    let n: u32 = rest.parse().map_err(|_| format!("bad account {:?}", text))?;
    match h {
        "t" => Ok((n, Hrp::Testnet)),
        "m" => Ok((n, Hrp::Mainnet)),
        _ => Err("bad prefix".to_string()),
    }
}

fn shard_num_for(account: &u32, count: u16) -> u16 {
    (*account % count as u32) as u16
}

#[test]
fn coinbase_errors() {
    let shard = (1u16, 4u16, None);
    let r = check_coinbase(None, Hrp::Testnet, shard, parse, shard_num_for);
    assert!(matches!(r, Err(CustomArgsError::CoinbaseNotFound)));
    assert_eq!(r.unwrap_err().message(), "Coinbase not found");

    let r = check_coinbase(Some("x1".to_string()), Hrp::Testnet, shard, parse, shard_num_for);
    assert_eq!(r.unwrap_err().message(), "Invalid coinbase: bad prefix");

    let r = check_coinbase(Some("m5".to_string()), Hrp::Testnet, shard, parse, shard_num_for);
    assert!(matches!(r, Err(CustomArgsError::InvalidCoinbaseHrp)));
    assert_eq!(r.unwrap_err().message(), "Invalid coinbase hrp");

    let r = check_coinbase(Some("t6".to_string()), Hrp::Testnet, shard, parse, shard_num_for);
    assert!(matches!(r, Err(CustomArgsError::CoinbaseShardMismatch)));
    assert_eq!(r.unwrap_err().message(), "Invalid coinbase: shard num is not accordant");

    // Account 1: shard 1 of 4, but shard 1 of 8 after the scale-out to shard 5.
    let scale = (1u16, 4u16, Some(ScaleOut { shard_num: 5 }));
    let r = check_coinbase(Some("t1".to_string()), Hrp::Testnet, scale, parse, shard_num_for);
    assert!(matches!(r, Err(CustomArgsError::CoinbaseScaleOutShardMismatch)));
    assert_eq!(
        r.unwrap_err().message(),
        "Invalid coinbase: shard num is not accordant after scaling out"
    );
}

#[test]
fn coinbase_accepted() {
    let r = check_coinbase(Some("t5".to_string()), Hrp::Testnet, (1, 4, None), parse, shard_num_for);
    assert_eq!(r.unwrap(), 5);
    let scale = (1u16, 4u16, Some(ScaleOut { shard_num: 5 }));
    let r = check_coinbase(Some("t13".to_string()), Hrp::Testnet, scale, parse, shard_num_for);
    assert_eq!(r.unwrap(), 13);
}

fn fresh_config() -> CustomConfig<u32> {
    CustomConfig {
        hrp: Hrp::Mainnet,
        shard_num: 0,
        shard_count: 0,
        scale_out: None,
        coinbase: 0,
        bootnodes_router_conf: None,
        foreign_port: None,
        mine: false,
    }
}

fn args(coinbase: Option<&str>, routers: Vec<&str>) -> YeeCliConfig {
    YeeCliConfig {
        coinbase: coinbase.map(|s| s.to_string()),
        shard_num: 1,
        bootnodes_routers: routers.into_iter().map(|s| s.to_string()).collect(),
        foreign_port: Some(30334),
        dev_params: false,
        dev_params_num: None,
        mine: true,
    }
}

#[test]
fn full_node_settles_without_coinbase() {
    let mut custom = fresh_config();
    let mut boot = vec!["old".to_string()];
    let fetched = Cell::new(0);
    let r = process_custom_args(
        &mut custom,
        &mut boot,
        "local",
        false,
        &args(None, vec![]),
        (1, 4, None),
        parse,
        shard_num_for,
        |_: &Vec<String>| {
            fetched.set(fetched.get() + 1);
            Ok(router_conf())
        },
    );
    assert!(r.is_ok());
    assert_eq!(custom.hrp, Hrp::Testnet);
    assert_eq!((custom.shard_num, custom.shard_count, custom.scale_out), (1, 4, None));
    assert_eq!(custom.coinbase, 0);
    assert_eq!(custom.foreign_port, Some(30334));
    assert!(custom.mine);
    assert_eq!(boot, vec!["old"]);
    assert!(custom.bootnodes_router_conf.is_none());
    assert_eq!(fetched.get(), 0);
}

#[test]
fn authority_settles_with_coinbase_and_bootnodes() {
    let mut custom = fresh_config();
    let mut boot = vec![];
    let r = process_custom_args(
        &mut custom,
        &mut boot,
        "main",
        true,
        &args(Some("m12"), vec!["http://router"]),
        (12, 16, None),
        parse,
        shard_num_for,
        |routers: &Vec<String>| {
            assert_eq!(routers, &vec!["http://router".to_string()]);
            Ok(router_conf())
        },
    );
    assert!(r.is_ok());
    assert_eq!(custom.hrp, Hrp::Mainnet);
    assert_eq!(custom.coinbase, 12);
    assert_eq!(boot, vec!["a", "b"]);
    assert!(custom.bootnodes_router_conf.is_some());
}

#[test]
fn router_conf_without_shard_keeps_boot_nodes() {
    let mut custom = fresh_config();
    let mut boot = vec!["old".to_string()];
    let r = process_custom_args(
        &mut custom,
        &mut boot,
        "local",
        false,
        &args(None, vec!["http://router"]),
        (3, 4, None),
        parse,
        shard_num_for,
        |_: &Vec<String>| Ok(router_conf()),
    );
    assert!(r.is_ok());
    assert_eq!(boot, vec!["old"]);
    assert_eq!(custom.bootnodes_router_conf.unwrap().shards.len(), 2);
}

#[test]
fn failed_router_request_changes_nothing() {
    let mut custom = fresh_config();
    let mut boot = vec!["old".to_string()];
    let r = process_custom_args(
        &mut custom,
        &mut boot,
        "local",
        false,
        &args(None, vec!["http://router"]),
        (0, 4, None),
        parse,
        shard_num_for,
        |_: &Vec<String>| Err("unreachable".to_string()),
    );
    assert!(r.is_ok());
    assert_eq!(boot, vec!["old"]);
    assert!(custom.bootnodes_router_conf.is_none());
}

#[test]
fn refused_coinbase_leaves_rest_untouched() {
    let mut custom = fresh_config();
    let mut boot = vec!["old".to_string()];
    let fetched = Cell::new(0);
    let r = process_custom_args(
        &mut custom,
        &mut boot,
        "local",
        true,
        &args(Some("t2"), vec!["http://router"]),
        (1, 4, None),
        parse,
        shard_num_for,
        |_: &Vec<String>| {
            fetched.set(fetched.get() + 1);
            Ok(router_conf())
        },
    );
    assert!(matches!(r, Err(CustomArgsError::CoinbaseShardMismatch)));
    assert_eq!(custom.hrp, Hrp::Testnet);
    assert_eq!((custom.shard_num, custom.shard_count), (1, 4));
    assert_eq!(custom.coinbase, 0);
    assert_eq!(custom.foreign_port, None);
    assert!(!custom.mine);
    assert_eq!(boot, vec!["old"]);
    assert_eq!(fetched.get(), 0);
}

#[test]
fn authority_without_coinbase_is_refused() {
    let mut custom = fresh_config();
    let mut boot = vec![];
    let r = process_custom_args(
        &mut custom,
        &mut boot,
        "local",
        true,
        &args(None, vec![]),
        (1, 4, None),
        parse,
        shard_num_for,
        |_: &Vec<String>| Ok(router_conf()),
    );
    assert!(matches!(r, Err(CustomArgsError::CoinbaseNotFound)));
}

#[test]
fn dev_config_one_local_endpoint_per_shard() {
    let params = vec![
        DevShardParams { shard_num: 0, rpc_port: 9933 },
        DevShardParams { shard_num: 1, rpc_port: 19933 },
    ];
    let conf = get_dev_config(&params);
    assert_eq!(conf.shards.len(), 2);
    assert_eq!(conf.shards[0].0, "0");
    assert_eq!(conf.shards[0].1.rpc, vec!["http://localhost:9933"]);
    assert_eq!(conf.shards[1].0, "1");
    assert_eq!(conf.shards[1].1.rpc, vec!["http://localhost:19933"]);
}

#[test]
fn dev_config_later_params_win() {
    let params = vec![
        DevShardParams { shard_num: 2, rpc_port: 1 },
        DevShardParams { shard_num: 3, rpc_port: 2 },
        DevShardParams { shard_num: 2, rpc_port: 3 },
    ];
    let conf = get_dev_config(&params);
    assert_eq!(conf.shards.len(), 2);
    let two = conf.shards.iter().find(|(k, _)| k == "2").unwrap();
    assert_eq!(two.1.rpc, vec!["http://localhost:3"]);
    assert!(get_dev_config(&vec![]).shards.is_empty());
}

#[test]
fn conf_path_joins_conf() {
    assert_eq!(conf_path("/home/u/.yee", '/'), "/home/u/.yee/conf");
    assert_eq!(conf_path("/home/u/.yee/", '/'), "/home/u/.yee/conf");
    assert_eq!(conf_path("", '/'), "conf");
    assert_eq!(conf_path("rel", '/'), "rel/conf");
    // On Unix a backslash is an ordinary character.
    assert_eq!(conf_path("a\\", '/'), "a\\/conf");
}

#[test]
fn conf_path_on_windows() {
    assert_eq!(conf_path("C:\\yee", '\\'), "C:\\yee\\conf");
    assert_eq!(conf_path("C:\\yee\\", '\\'), "C:\\yee\\conf");
    assert_eq!(conf_path("C:/yee/", '\\'), "C:/yee/conf");
    assert_eq!(conf_path("C:", '\\'), "C:conf");
    assert_eq!(conf_path("1:", '\\'), "1:\\conf");
    assert_eq!(conf_path("", '\\'), "conf");
}

#[test]
fn conf_path_agrees_with_pathbuf() {
    for base in ["/a/b", "/a/b/", "x", "/", "", "C:", "C:\\x"] {
        let mut p = std::path::PathBuf::from(base);
        p.push("conf");
        assert_eq!(conf_path(base, std::path::MAIN_SEPARATOR), p.to_str().unwrap());
    }
}

#[test]
fn large_shard_count_refused_coinbase_is_an_error() {
    // Shard count 40000 cannot be doubled in a u16, but an undecodable or
    // foreign coinbase is refused before the doubling.
    let scale = (0u16, 40000u16, Some(ScaleOut { shard_num: 40000 }));
    let r = check_coinbase(Some("x1".to_string()), Hrp::Testnet, scale, parse, shard_num_for);
    assert!(matches!(r, Err(CustomArgsError::InvalidCoinbase(_))));
    let r = check_coinbase(Some("m0".to_string()), Hrp::Testnet, scale, parse, shard_num_for);
    assert!(matches!(r, Err(CustomArgsError::InvalidCoinbaseHrp)));
    let r = check_coinbase(Some("t1".to_string()), Hrp::Testnet, scale, parse, shard_num_for);
    assert!(matches!(r, Err(CustomArgsError::CoinbaseShardMismatch)));
}

#[test]
fn large_shard_count_process_reports_coinbase_error() {
    let mut custom = fresh_config();
    let mut boot = vec![];
    let r = process_custom_args(
        &mut custom,
        &mut boot,
        "local",
        true,
        &args(Some("t1"), vec![]),
        (0, 40000, Some(ScaleOut { shard_num: 40000 })),
        parse,
        shard_num_for,
        |_: &Vec<String>| Ok(router_conf()),
    );
    assert!(matches!(r, Err(CustomArgsError::CoinbaseShardMismatch)));
    assert_eq!(custom.shard_count, 40000);
}
