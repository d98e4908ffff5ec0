//! Profiler configuration: input source, tracker selection, output, and
//! the defaults of the runtime parameters.

use vstd::prelude::*;
use vstd::string::*;

verus! {

/// Input data source.
pub struct InputConfig {
    /// Hot store directory (decompressed `.dbn` files).
    pub hot_store_dir: Option<String>,
    /// Raw data directory (`.dbn.zst` files).
    pub data_dir: Option<String>,
    /// File name pattern holding a `{date}` placeholder, e.g. `xnas-itch-{date}.mbo.dbn`.
    pub filename_pattern: String,
    /// Symbol name for metadata.
    pub symbol: String,
    /// Exchange identifier for metadata.
    pub exchange: String,
    /// Inclusive date range filter, `YYYY-MM-DD`.
    pub date_start: Option<String>,
    pub date_end: Option<String>,
}

/// Which analysis trackers are enabled.
pub struct TrackerConfig {
    pub quality: bool,
    pub ofi: bool,
    pub spread: bool,
    pub returns: bool,
    pub volatility: bool,
    pub lifecycle: bool,
    pub trades: bool,
    pub depth: bool,
    pub liquidity: bool,
    pub jumps: bool,
    pub noise: bool,
    pub vpin: bool,
    pub cross_scale_ofi: bool,
}

impl TrackerConfig {
    /// Every tracker but the cross-scale OFI tracker is enabled by default.
    pub open spec fn is_default(&self) -> bool {
        &&& self.quality && self.ofi && self.spread && self.returns && self.volatility
        &&& self.lifecycle && self.trades && self.depth && self.liquidity && self.jumps
        &&& self.noise && self.vpin
        &&& !self.cross_scale_ofi
    }
}

impl Default for TrackerConfig {
    fn default() -> (r: Self)
        ensures
            r.is_default(),
    {
        TrackerConfig {
            quality: true,
            ofi: true,
            spread: true,
            returns: true,
            volatility: true,
            lifecycle: true,
            trades: true,
            depth: true,
            liquidity: true,
            jumps: true,
            noise: true,
            vpin: true,
            cross_scale_ofi: false,
        }
    }
}

/// Output configuration.
pub struct OutputConfig {
    /// Directory for the JSON output files.
    pub output_dir: String,
    /// Whether to write text summaries alongside the JSON files.
    pub write_summaries: bool,
}

impl Default for OutputConfig {
    fn default() -> (r: Self)
        ensures
            r.output_dir@ == default_output_dir_name(),
            r.write_summaries,
    {
        OutputConfig { output_dir: default_output_dir(), write_summaries: true }
    }
}

/// The default output directory name.
pub open spec fn default_output_dir_name() -> Seq<char> {
    seq!['p', 'r', 'o', 'f', 'i', 'l', 'e', 'r', '_', 'o', 'u', 't', 'p', 'u', 't']
}

/// Default reservoir sampling capacity for distribution estimation.
pub fn default_reservoir_capacity() -> (r: usize)
    ensures
        r == 10_000,
{
    10_000
}

/// Default VPIN volume bar size, in shares.
pub fn default_vpin_bar_size() -> (r: u64)
    ensures
        r == 5_000,
{
    5_000
}

/// Default number of volume bars in the VPIN rolling window.
pub fn default_vpin_window() -> (r: usize)
    ensures
        r == 50,
{
    50
}

/// The default symbol name.
pub open spec fn default_symbol_name() -> Seq<char> {
    seq!['N', 'V', 'D', 'A']
}

/// The default exchange identifier.
pub open spec fn default_exchange_name() -> Seq<char> {
    seq!['X', 'N', 'A', 'S']
}

/// Default symbol name.
pub fn default_symbol() -> (r: String)
    ensures
        r@ == default_symbol_name(),
{
    let r = String::from_str("NVDA");
    proof {
        reveal_strlit("NVDA");
        assert(r@ =~= default_symbol_name());
    }
    r
}

/// Default exchange identifier.
pub fn default_exchange() -> (r: String)
    ensures
        r@ == default_exchange_name(),
{
    let r = String::from_str("XNAS");
    proof {
        reveal_strlit("XNAS");
        assert(r@ =~= default_exchange_name());
    }
    r
}

/// Default for boolean switches.
pub fn default_true() -> (r: bool)
    ensures
        r,
{
    true
}

/// Default output directory.
pub fn default_output_dir() -> (r: String)
    ensures
        r@ == default_output_dir_name(),
{
    let r = String::from_str("profiler_output");
    proof {
        reveal_strlit("profiler_output");
        assert(r@ =~= default_output_dir_name());
    }
    r
}

} // verus!
