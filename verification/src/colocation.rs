//! Configuration for solver and driver processes that run side by side in
//! integration tests: the text of their configuration files and their
//! command lines.

use vstd::prelude::*;
use vstd::string::StringExecFns;
use crate::eth::Address;
use crate::text::{
    debug_address, debug_hash, decimal, encode_hex, hex_lower, join, joined, prefixed_hex,
    push_decimal, texts,
};

verus! {

/// A helper contract for automated market makers and the block in which it
/// was deployed.
#[derive(Clone, Copy, Debug, PartialEq, Eq)]
pub struct CowAmm {
    pub address: Address,
    pub deployment_block: u64,
}

/// The deployed contracts that the processes are pointed at.
#[derive(Debug)]
pub struct Contracts {
    pub gp_settlement: Address,
    pub weth: Address,
    pub uniswap_v2_router: Address,
    pub default_pool_code: [u8; 32],
    pub cow_amm_helper: Vec<CowAmm>,
}

/// A solver as the driver is told of it.
#[derive(Debug)]
pub struct SolverEngine {
    pub name: String,
    pub endpoint: String,
    /// The private key of the solver's account.
    pub account: [u8; 32],
}

/// Where the driver finds liquidity.
#[derive(Clone, Copy, Debug, PartialEq, Eq, Structural)]
pub enum LiquidityProvider {
    UniswapV2,
    ZeroEx { api_port: u16 },
}

impl Contracts {
    /// Every helper was deployed after the first block, so that indexing can
    /// start one block earlier.
    pub open spec fn wf(&self) -> bool {
        forall|i: int|
            0 <= i < self.cow_amm_helper@.len() ==> (
            #[trigger] self.cow_amm_helper@[i]).deployment_block >= 1
    }

    /// Checks [`Contracts::wf`].
    pub fn is_well_formed(&self) -> (ok: bool)
        ensures
            ok == self.wf(),
    {
        let mut i: usize = 0;
        while i < self.cow_amm_helper.len()
            invariant
                i <= self.cow_amm_helper.len(),
                forall|j: int|
                    0 <= j < i ==> (#[trigger] self.cow_amm_helper@[j]).deployment_block >= 1,
            decreases self.cow_amm_helper.len() - i,
        {
            if self.cow_amm_helper[i].deployment_block < 1 {
                return false;
            }
            i = i + 1;
        }
        true
    }
}

/// The liquidity section for a Uniswap V2 router.
pub open spec fn uniswap_section(router: Address, pool_code: [u8; 32]) -> Seq<char> {
    "\n[[liquidity.uniswap-v2]]\nrouter = \""@ + prefixed_hex(router.0@) + "\"\npool-code = \""@
        + prefixed_hex(pool_code@) + "\"\nmissing-pool-cache-time = \"1h\"\n"@
}

/// The liquidity section for a 0x API on a local port.
pub open spec fn zeroex_section(api_port: u16) -> Seq<char> {
    "\n[liquidity.zeroex]\nbase-url = \"http://0.0.0.0:"@ + decimal(api_port as nat)
        + "\"\napi-key = \"no-api-key\"\nhttp-timeout = \"10s\"\n"@
}

impl LiquidityProvider {
    /// The liquidity section of the driver's configuration.
    pub open spec fn section(self, contracts: &Contracts) -> Seq<char> {
        match self {
            LiquidityProvider::UniswapV2 => uniswap_section(
                contracts.uniswap_v2_router,
                contracts.default_pool_code,
            ),
            LiquidityProvider::ZeroEx { api_port } => zeroex_section(api_port),
        }
    }

    /// Writes the liquidity section of the driver's configuration.
    pub fn to_string(&self, contracts: &Contracts) -> (text: String)
        ensures
            text@ == self.section(contracts),
    {
        match self {
            LiquidityProvider::UniswapV2 => {
                let mut text = String::from_str("\n[[liquidity.uniswap-v2]]\nrouter = \"");
                text.append(debug_address(&contracts.uniswap_v2_router).as_str());
                text.append("\"\npool-code = \"");
                text.append(debug_hash(&contracts.default_pool_code).as_str());
                text.append("\"\nmissing-pool-cache-time = \"1h\"\n");
                text
            },
            LiquidityProvider::ZeroEx { api_port } => {
                let mut text = String::from_str("\n[liquidity.zeroex]\nbase-url = \"http://0.0.0.0:");
                push_decimal(&mut text, *api_port as u64);
                text.append("\"\napi-key = \"no-api-key\"\nhttp-timeout = \"10s\"\n");
                text
            },
        }
    }
}

/// The configuration of the baseline solver.
pub open spec fn baseline_config(weth: Address) -> Seq<char> {
    "\nweth = \""@ + prefixed_hex(weth.0@)
        + "\"\nbase-tokens = []\nmax-hops = 1\nmax-partial-attempts = 5\nnative-token-price-estimation-amount = \"100000000000000000\"\n        "@
}

/// Writes the configuration of the baseline solver for the wrapped native
/// token at `weth`.
pub fn baseline_solver_config(weth: &Address) -> (text: String)
    ensures
        text@ == baseline_config(*weth),
{
    let mut text = String::from_str("\nweth = \"");
    text.append(debug_address(weth).as_str());
    text.append(
        "\"\nbase-tokens = []\nmax-hops = 1\nmax-partial-attempts = 5\nnative-token-price-estimation-amount = \"100000000000000000\"\n        ",
    );
    text
}

/// The command line of a solver process: its name in the third place, its
/// configuration file in the last.
pub fn solver_args(config_path: &str, solver_name: String) -> (args: Vec<String>)
    ensures
        args@.len() == 4,
        args@[0]@ == "solvers"@,
        args@[1]@ == "--addr=0.0.0.0:0"@,
        args@[2] == solver_name,
        args@[3]@ == "--config="@ + config_path@,
{
    let mut config = String::from_str("--config=");
    config.append(config_path);
    let mut args: Vec<String> = Vec::new();
    args.push(String::from_str("solvers"));
    args.push(String::from_str("--addr=0.0.0.0:0"));
    args.push(solver_name);
    args.push(config);
    args
}

/// The section that tells the driver of one solver.
pub open spec fn solver_section(name: Seq<char>, endpoint: Seq<char>, account: [u8; 32]) -> Seq<
    char,
> {
    "\n[[solver]]\nname = \""@ + name + "\"\nendpoint = \""@ + endpoint
        + "\"\nrelative-slippage = \"0.1\"\naccount = \""@ + hex_lower(account@) + "\"\n\n"@
}

/// The sections of all solvers, in order.
pub open spec fn solver_sections(solvers: Seq<SolverEngine>) -> Seq<Seq<char>> {
    Seq::new(
        solvers.len(),
        |i: int| solver_section(solvers[i].name@, solvers[i].endpoint@, solvers[i].account),
    )
}

/// The section that tells the driver of one helper contract: indexing
/// starts one block before the contract was deployed.
pub open spec fn cow_amm_section(amm: CowAmm) -> Seq<char> {
    "\n[[contracts.cow-amms]]\nindex-start = "@ + decimal((amm.deployment_block - 1) as nat)
        + "\nhelper = \""@ + prefixed_hex(amm.address.0@) + "\"\nfactory = \""@ + prefixed_hex(
        amm.address.0@,
    ) + "\"\n"@
}

/// The sections of all helper contracts, in order.
pub open spec fn cow_amm_sections(amms: Seq<CowAmm>) -> Seq<Seq<char>> {
    Seq::new(amms.len(), |i: int| cow_amm_section(amms[i]))
}

/// The configuration of the driver.
pub open spec fn driver_config_text(
    contracts: &Contracts,
    solvers: Seq<SolverEngine>,
    liquidity: LiquidityProvider,
) -> Seq<char> {
    "\n[contracts]\ngp-v2-settlement = \""@ + prefixed_hex(contracts.gp_settlement.0@)
        + "\"\nweth = \""@ + prefixed_hex(contracts.weth.0@) + "\"\n"@ + joined(
        cow_amm_sections(contracts.cow_amm_helper@),
        "\n"@,
    ) + "\n\n"@ + joined(solver_sections(solvers), "\n"@)
        + "\n\n[liquidity]\nbase-tokens = []\n\n"@ + liquidity.section(contracts)
        + "\n\n[submission]\ngas-price-cap = \"1000000000000\"\n\n[[submission.mempool]]\nmempool = \"public\"\n"@
}

/// Writes the section of one solver.
pub fn write_solver(solver: &SolverEngine) -> (text: String)
    ensures
        text@ == solver_section(solver.name@, solver.endpoint@, solver.account),
{
    let mut text = String::from_str("\n[[solver]]\nname = \"");
    text.append(solver.name.as_str());
    text.append("\"\nendpoint = \"");
    text.append(solver.endpoint.as_str());
    text.append("\"\nrelative-slippage = \"0.1\"\naccount = \"");
    text.append(encode_hex(&solver.account).as_str());
    text.append("\"\n\n");
    text
}

/// Writes the section of one helper contract.
pub fn write_cow_amm(amm: &CowAmm) -> (text: String)
    requires
        amm.deployment_block >= 1,
    ensures
        text@ == cow_amm_section(*amm),
{
    let mut text = String::from_str("\n[[contracts.cow-amms]]\nindex-start = ");
    push_decimal(&mut text, amm.deployment_block - 1);
    text.append("\nhelper = \"");
    text.append(debug_address(&amm.address).as_str());
    text.append("\"\nfactory = \"");
    text.append(debug_address(&amm.address).as_str());
    text.append("\"\n");
    text
}

/// Writes the configuration of a driver that serves the given solvers.
pub fn driver_config(
    contracts: &Contracts,
    solvers: &Vec<SolverEngine>,
    liquidity: LiquidityProvider,
) -> (text: String)
    requires
        contracts.wf(),
    ensures
        text@ == driver_config_text(contracts, solvers@, liquidity),
{
    let mut solver_parts: Vec<String> = Vec::new();
    let mut i: usize = 0;
    while i < solvers.len()
        invariant
            i <= solvers.len(),
            solver_parts.len() == i,
            texts(solver_parts@) == solver_sections(solvers@).take(i as int),
        decreases solvers.len() - i,
    {
        solver_parts.push(write_solver(&solvers[i]));
        i = i + 1;
    }
    assert(texts(solver_parts@) =~= solver_sections(solvers@));
    let mut amm_parts: Vec<String> = Vec::new();
    let mut k: usize = 0;
    while k < contracts.cow_amm_helper.len()
        invariant
            k <= contracts.cow_amm_helper.len(),
            contracts.wf(),
            amm_parts.len() == k,
            texts(amm_parts@) == cow_amm_sections(contracts.cow_amm_helper@).take(k as int),
        decreases contracts.cow_amm_helper.len() - k,
    {
        amm_parts.push(write_cow_amm(&contracts.cow_amm_helper[k]));
        k = k + 1;
    }
    assert(texts(amm_parts@) =~= cow_amm_sections(contracts.cow_amm_helper@));
    let mut text = String::from_str("\n[contracts]\ngp-v2-settlement = \"");
    text.append(debug_address(&contracts.gp_settlement).as_str());
    text.append("\"\nweth = \"");
    text.append(debug_address(&contracts.weth).as_str());
    text.append("\"\n");
    text.append(join(&amm_parts, "\n").as_str());
    text.append("\n\n");
    text.append(join(&solver_parts, "\n").as_str());
    text.append("\n\n[liquidity]\nbase-tokens = []\n\n");
    text.append(liquidity.to_string(contracts).as_str());
    text.append(
        "\n\n[submission]\ngas-price-cap = \"1000000000000\"\n\n[[submission.mempool]]\nmempool = \"public\"\n",
    );
    text
}

/// The command line of a driver process.
pub fn driver_args(config_path: &str, node_url: &str) -> (args: Vec<String>)
    ensures
        args@.len() == 3,
        args@[0]@ == "driver"@,
        args@[1]@ == "--config="@ + config_path@,
        args@[2]@ == "--ethrpc="@ + node_url@,
{
    let mut config = String::from_str("--config=");
    config.append(config_path);
    let mut node = String::from_str("--ethrpc=");
    node.append(node_url);
    let mut args: Vec<String> = Vec::new();
    args.push(String::from_str("driver"));
    args.push(config);
    args.push(node);
    args
}

} // verus!
