use autopilot::colocation::{
    baseline_solver_config, driver_args, driver_config, solver_args, write_cow_amm, write_solver,
    Contracts, CowAmm, LiquidityProvider, SolverEngine,
};
use autopilot::eth::Address;
use autopilot::text::{decimal_text, join, push_decimal};

fn counted_bytes<const N: usize>() -> [u8; N] {
    let mut bytes = [0u8; N];
    for (i, byte) in bytes.iter_mut().enumerate() {
        *byte = (i as u8).wrapping_mul(0x11).wrapping_add(0x0a);
    }
    bytes
}

fn deployed() -> Contracts {
    Contracts {
        gp_settlement: Address([0x11; 20]),
        weth: Address([0x22; 20]),
        uniswap_v2_router: Address(counted_bytes::<20>()),
        default_pool_code: counted_bytes::<32>(),
        cow_amm_helper: vec![],
    }
}

#[test]
fn decimal_numerals() {
    assert_eq!(decimal_text(0), "0");
    assert_eq!(decimal_text(7), "7");
    assert_eq!(decimal_text(10), "10");
    assert_eq!(decimal_text(1234567890), "1234567890");
    assert_eq!(decimal_text(u64::MAX), "18446744073709551615");
    let mut text = String::from("n=");
    push_decimal(&mut text, 405);
    assert_eq!(text, "n=405");
}

#[test]
fn joined_parts() {
    assert_eq!(join(&vec![], ", "), "");
    assert_eq!(join(&vec!["a".to_string()], ", "), "a");
    assert_eq!(join(&vec!["a".to_string(), "".to_string(), "c".to_string()], ", "), "a, , c");
}

#[test]
fn uniswap_section_names_router_and_pool_code() {
    let text = LiquidityProvider::UniswapV2.to_string(&deployed());
    assert_eq!(
        text,
        "\n[[liquidity.uniswap-v2]]\nrouter = \"0x0a1b2c3d4e5f708192a3b4c5d6e7f8091a2b3c4d\"\npool-code = \"0x0a1b2c3d4e5f708192a3b4c5d6e7f8091a2b3c4d5e6f8091a2b3c4d5e6f70819\"\nmissing-pool-cache-time = \"1h\"\n"
    );
}

#[test]
fn zeroex_section_names_the_port() {
    let text = LiquidityProvider::ZeroEx { api_port: 8080 }.to_string(&deployed());
    assert_eq!(
        text,
        "\n[liquidity.zeroex]\nbase-url = \"http://0.0.0.0:8080\"\napi-key = \"no-api-key\"\nhttp-timeout = \"10s\"\n"
    );
    let text = LiquidityProvider::ZeroEx { api_port: 0 }.to_string(&deployed());
    assert!(text.contains("base-url = \"http://0.0.0.0:0\"\n"));
    let text = LiquidityProvider::ZeroEx { api_port: u16::MAX }.to_string(&deployed());
    assert!(text.contains("base-url = \"http://0.0.0.0:65535\"\n"));
}

#[test]
fn baseline_solver_configuration() {
    let text = baseline_solver_config(&Address([0xc0; 20]));
    assert_eq!(
        text,
        "\nweth = \"0xc0c0c0c0c0c0c0c0c0c0c0c0c0c0c0c0c0c0c0c0\"\nbase-tokens = []\nmax-hops = 1\nmax-partial-attempts = 5\nnative-token-price-estimation-amount = \"100000000000000000\"\n        "
    );
}

#[test]
fn solver_command_line() {
    let args = solver_args("/tmp/config.toml", "baseline".to_string());
    assert_eq!(args, vec!["solvers", "--addr=0.0.0.0:0", "baseline", "--config=/tmp/config.toml"]);
}

#[test]
fn driver_command_line() {
    let args = driver_args("/tmp/driver.toml", "http://127.0.0.1:8545");
    assert_eq!(args, vec!["driver", "--config=/tmp/driver.toml", "--ethrpc=http://127.0.0.1:8545"]);
}

#[test]
fn solver_section_holds_the_key_in_hexadecimal() {
    let solver = SolverEngine {
        name: "test_solver".to_string(),
        endpoint: "http://localhost:11088/".to_string(),
        account: counted_bytes::<32>(),
    };
    assert_eq!(
        write_solver(&solver),
        "\n[[solver]]\nname = \"test_solver\"\nendpoint = \"http://localhost:11088/\"\nrelative-slippage = \"0.1\"\naccount = \"0a1b2c3d4e5f708192a3b4c5d6e7f8091a2b3c4d5e6f8091a2b3c4d5e6f70819\"\n\n"
    );
}

#[test]
fn helper_section_starts_indexing_one_block_early() {
    let text = write_cow_amm(&CowAmm { address: Address([0xab; 20]), deployment_block: 1000 });
    assert_eq!(
        text,
        "\n[[contracts.cow-amms]]\nindex-start = 999\nhelper = \"0xabababababababababababababababababababab\"\nfactory = \"0xabababababababababababababababababababab\"\n"
    );
    let text = write_cow_amm(&CowAmm { address: Address([0; 20]), deployment_block: 1 });
    assert!(text.starts_with("\n[[contracts.cow-amms]]\nindex-start = 0\n"));
}

#[test]
fn well_formed_contracts_have_helpers_after_the_first_block() {
    let mut contracts = deployed();
    assert!(contracts.is_well_formed());
    contracts.cow_amm_helper.push(CowAmm { address: Address([1; 20]), deployment_block: 1 });
    assert!(contracts.is_well_formed());
    contracts.cow_amm_helper.push(CowAmm { address: Address([2; 20]), deployment_block: 0 });
    assert!(!contracts.is_well_formed());
}

#[test]
fn driver_configuration_without_solvers_and_helpers() {
    let text = driver_config(&deployed(), &vec![], LiquidityProvider::ZeroEx { api_port: 9 });
    assert_eq!(
        text,
        "\n[contracts]\ngp-v2-settlement = \"0x1111111111111111111111111111111111111111\"\nweth = \"0x2222222222222222222222222222222222222222\"\n\n\n\n\n[liquidity]\nbase-tokens = []\n\n\n[liquidity.zeroex]\nbase-url = \"http://0.0.0.0:9\"\napi-key = \"no-api-key\"\nhttp-timeout = \"10s\"\n\n\n[submission]\ngas-price-cap = \"1000000000000\"\n\n[[submission.mempool]]\nmempool = \"public\"\n"
    );
}

#[test]
fn driver_configuration_with_solvers_and_helpers() {
    let mut contracts = deployed();
    contracts.cow_amm_helper = vec![
        CowAmm { address: Address([0x33; 20]), deployment_block: 5 },
        CowAmm { address: Address([0x44; 20]), deployment_block: 70 },
    ];
    let solvers = vec![
        SolverEngine {
            name: "one".to_string(),
            endpoint: "http://localhost:1/".to_string(),
            account: [0x01; 32],
        },
        SolverEngine {
            name: "two".to_string(),
            endpoint: "http://localhost:2/".to_string(),
            account: [0xfe; 32],
        },
    ];
    let text = driver_config(&contracts, &solvers, LiquidityProvider::UniswapV2);
    let expected = [
        "\n[contracts]\ngp-v2-settlement = \"0x1111111111111111111111111111111111111111\"\n",
        "weth = \"0x2222222222222222222222222222222222222222\"\n",
        "\n[[contracts.cow-amms]]\nindex-start = 4\n",
        "helper = \"0x3333333333333333333333333333333333333333\"\n",
        "factory = \"0x3333333333333333333333333333333333333333\"\n",
        "\n",
        "\n[[contracts.cow-amms]]\nindex-start = 69\n",
        "helper = \"0x4444444444444444444444444444444444444444\"\n",
        "factory = \"0x4444444444444444444444444444444444444444\"\n",
        "\n\n",
        "\n[[solver]]\nname = \"one\"\nendpoint = \"http://localhost:1/\"\n",
        "relative-slippage = \"0.1\"\n",
        "account = \"0101010101010101010101010101010101010101010101010101010101010101\"\n\n",
        "\n",
        "\n[[solver]]\nname = \"two\"\nendpoint = \"http://localhost:2/\"\n",
        "relative-slippage = \"0.1\"\n",
        "account = \"fefefefefefefefefefefefefefefefefefefefefefefefefefefefefefefefe\"\n\n",
        "\n\n[liquidity]\nbase-tokens = []\n\n",
        "\n[[liquidity.uniswap-v2]]\n",
        "router = \"0x0a1b2c3d4e5f708192a3b4c5d6e7f8091a2b3c4d\"\n",
        "pool-code = \"0x0a1b2c3d4e5f708192a3b4c5d6e7f8091a2b3c4d5e6f8091a2b3c4d5e6f70819\"\n",
        "missing-pool-cache-time = \"1h\"\n",
        "\n\n[submission]\ngas-price-cap = \"1000000000000\"\n\n",
        "[[submission.mempool]]\nmempool = \"public\"\n",
    ]
    .concat();
    assert_eq!(text, expected);
}
