//! Host platform facts and the capabilities of each transport backend.

use vstd::prelude::*;
use crate::text::{chars_of, string_from_chars, nth_field, nth_field_range, nth_word, nth_word_range, spec_parse_u32, parse_u32};
use crate::transport_type::TransportType;

verus! {

/// Platform information.
#[derive(Debug, Clone)]
pub struct Platform {
    /// Operating system (linux, windows, macos, ...)
    pub os: String,
    /// OS version
    pub os_version: String,
    /// Kernel release (for Linux)
    pub kernel_version: Option<String>,
    /// CPU architecture (x86_64, aarch64, etc.)
    pub arch: String,
    /// Number of CPU cores
    pub cpu_cores: usize,
    /// Total RAM in bytes
    pub total_ram_bytes: u64,
}

/// Whether Sendfile-style zero-copy TCP is available: this crate is built for
/// Linux, where `sendfile()` exists.
pub const TCP_ZERO_COPY: bool = true;

/// The kernel release string: the third whitespace-separated word of the
/// text of `/proc/version`.
pub open spec fn spec_kernel_release(proc_version: Seq<char>) -> Option<Seq<char>> {
    nth_word(proc_version, 2)
}

/// The minor version of a kernel release (the text between the first and
/// the second `'.'`) is at least 1.
pub open spec fn minor_at_least_one(k: Seq<char>) -> bool {
    match nth_field(k, 1) {
        Some(g) => match spec_parse_u32(g) {
            Some(minor) => minor >= 1,
            None => false,
        },
        None => false,
    }
}

/// io_uring needs Linux 5.1 or later: the kernel's major version (the text
/// before the first `'.'`) is above 5, or is 5 with a minor version of at
/// least 1.
pub open spec fn spec_supports_io_uring(os: Seq<char>, kernel: Option<Seq<char>>) -> bool {
    &&& os == "linux"@
    &&& match kernel {
        Some(k) => match nth_field(k, 0) {
            Some(f) => match spec_parse_u32(f) {
                Some(major) => major > 5 || (major == 5 && minor_at_least_one(k)),
                None => false,
            },
            None => false,
        },
        None => false,
    }
}

/// DPDK supports Linux, FreeBSD and Windows.
pub open spec fn spec_supports_dpdk(os: Seq<char>) -> bool {
    os == "linux"@ || os == "freebsd"@ || os == "windows"@
}

impl Platform {
    /// The operating-system version that is reported: always `"unknown"`.
    pub fn get_os_version() -> (s: String)
        ensures
            s@ == "unknown"@,
    {
        "unknown".to_string()
    }

    /// The RAM size that is reported: always 8 GB.
    pub fn get_total_ram() -> (r: u64)
        ensures
            r == 8_000_000_000,
    {
        8_000_000_000
    }

    /// The kernel release found in the text of `/proc/version`.
    pub fn kernel_release(proc_version: &str) -> (r: Option<String>)
        ensures
            match r {
                Some(k) => spec_kernel_release(proc_version@) == Some(k@),
                None => spec_kernel_release(proc_version@) is None,
            },
    {
        let chars = chars_of(proc_version);
        match nth_word_range(&chars, 2) {
            None => None,
            Some((b, e)) => Some(string_from_chars(&chars, b, e)),
        }
    }

    /// Assemble the platform record from what the host reports: its OS and
    /// architecture names, its core count and the text of `/proc/version`
    /// where there is one.
    pub fn from_host(os: String, arch: String, cpu_cores: usize, proc_version: Option<&str>) -> (p: Platform)
        ensures
            p.os@ == os@,
            p.arch@ == arch@,
            p.cpu_cores == cpu_cores,
            p.os_version@ == "unknown"@,
            p.total_ram_bytes == 8_000_000_000,
            match proc_version {
                None => p.kernel_version is None,
                Some(v) => match p.kernel_version {
                    Some(k) => spec_kernel_release(v@) == Some(k@),
                    None => spec_kernel_release(v@) is None,
                },
            },
    {
        let kernel_version = match proc_version {
            None => None,
            Some(v) => Self::kernel_release(v),
        };
        Platform {
            os,
            os_version: Self::get_os_version(),
            kernel_version,
            arch,
            cpu_cores,
            total_ram_bytes: Self::get_total_ram(),
        }
    }

    /// Check if platform supports io_uring.
    pub fn supports_io_uring(&self) -> (r: bool)
        ensures
            r == spec_supports_io_uring(
                self.os@,
                match self.kernel_version {
                    Some(k) => Some(k@),
                    None => None,
                },
            ),
    {
        if !str_eq(self.os.as_str(), "linux") {
            return false;
        }
        match &self.kernel_version {
            None => false,
            Some(k) => {
                let chars = chars_of(k.as_str());
                assert(chars@ =~= chars@.subrange(0, chars@.len() as int));
                match nth_field_range(&chars, 0, chars.len(), 0) {
                    None => false,
                    Some((b, e)) => match parse_u32(&chars, b, e) {
                        Some(major) => {
                            if major > 5 {
                                true
                            } else if major < 5 {
                                false
                            } else {
                                match nth_field_range(&chars, 0, chars.len(), 1) {
                                    None => false,
                                    Some((b2, e2)) => match parse_u32(&chars, b2, e2) {
                                        Some(minor) => minor >= 1,
                                        None => false,
                                    },
                                }
                            }
                        },
                        None => false,
                    },
                }
            },
        }
    }

    /// Check if platform supports DPDK.
    pub fn supports_dpdk(&self) -> (r: bool)
        ensures
            r == spec_supports_dpdk(self.os@),
    {
        str_eq(self.os.as_str(), "linux") || str_eq(self.os.as_str(), "freebsd") || str_eq(
            self.os.as_str(),
            "windows",
        )
    }

    /// Check if platform has sufficient resources for high-performance transfer.
    pub fn has_sufficient_resources(&self) -> (r: bool)
        ensures
            r == (self.cpu_cores >= 4 && self.total_ram_bytes >= 4_000_000_000),
    {
        self.cpu_cores >= 4 && self.total_ram_bytes >= 4_000_000_000
    }
}

/// Character-wise equality of two string slices.
pub fn str_eq(a: &str, b: &str) -> (r: bool)
    ensures
        r == (a@ == b@),
{
    let x = chars_of(a);
    let y = chars_of(b);
    if x.len() != y.len() {
        return false;
    }
    let mut i: usize = 0;
    while i < x.len()
        invariant
            x@.len() == y@.len(),
            x@ == a@,
            y@ == b@,
            i <= x@.len(),
            forall|j: int| 0 <= j < i ==> x@[j] == y@[j],
        decreases x@.len() - i,
    {
        if x[i] != y[i] {
            assert(x@[i as int] != y@[i as int]);
            return false;
        }
        i = i + 1;
    }
    assert(x@ =~= y@);
    true
}

/// Backend capabilities.
#[derive(Debug, Clone)]
pub struct BackendCapabilities {
    /// Transport type
    pub transport_type: TransportType,
    /// Maximum throughput in bytes per second
    pub max_throughput_bps: u64,
    /// Minimum required network bandwidth in bytes per second
    pub min_bandwidth_bps: u64,
    /// Whether zero-copy is supported
    pub supports_zero_copy: bool,
    /// Whether kernel bypass is used
    pub uses_kernel_bypass: bool,
    /// Requires special hardware
    pub requires_special_hardware: bool,
    /// Minimum CPU cores required
    pub min_cpu_cores: usize,
    /// Minimum RAM required in bytes
    pub min_ram_bytes: u64,
    /// Supported platforms
    pub supported_platforms: Vec<String>,
    /// Hardware cost estimate in USD
    pub hardware_cost_usd: u32,
}

/// The numeric and boolean part of a backend's capability record.
pub struct CapsFacts {
    pub max_throughput_bps: u64,
    pub min_bandwidth_bps: u64,
    pub supports_zero_copy: bool,
    pub uses_kernel_bypass: bool,
    pub requires_special_hardware: bool,
    pub min_cpu_cores: usize,
    pub min_ram_bytes: u64,
    pub hardware_cost_usd: u32,
}

/// The capability figures of each backend.
pub open spec fn spec_caps(t: TransportType) -> CapsFacts {
    match t {
        TransportType::IoUring => CapsFacts {
            max_throughput_bps: 20_000_000_000,
            min_bandwidth_bps: 1_250_000_000,
            supports_zero_copy: true,
            uses_kernel_bypass: true,
            requires_special_hardware: false,
            min_cpu_cores: 4,
            min_ram_bytes: 4_000_000_000,
            hardware_cost_usd: 300,
        },
        TransportType::Dpdk => CapsFacts {
            max_throughput_bps: 10_000_000_000,
            min_bandwidth_bps: 10_000_000_000,
            supports_zero_copy: true,
            uses_kernel_bypass: true,
            requires_special_hardware: true,
            min_cpu_cores: 8,
            min_ram_bytes: 16_000_000_000,
            hardware_cost_usd: 2000,
        },
        TransportType::Quic => CapsFacts {
            max_throughput_bps: 1_400_000_000,
            min_bandwidth_bps: 125_000_000,
            supports_zero_copy: false,
            uses_kernel_bypass: false,
            requires_special_hardware: false,
            min_cpu_cores: 2,
            min_ram_bytes: 2_000_000_000,
            hardware_cost_usd: 50,
        },
        TransportType::Tcp => CapsFacts {
            max_throughput_bps: 250_000_000,
            min_bandwidth_bps: 125_000_000,
            supports_zero_copy: TCP_ZERO_COPY,
            uses_kernel_bypass: false,
            requires_special_hardware: false,
            min_cpu_cores: 1,
            min_ram_bytes: 1_000_000_000,
            hardware_cost_usd: 20,
        },
    }
}

/// The platforms on which each backend runs.
pub open spec fn spec_supported_platforms(t: TransportType) -> Seq<Seq<char>> {
    match t {
        TransportType::IoUring => seq!["linux"@],
        TransportType::Dpdk => seq!["linux"@, "freebsd"@, "windows"@],
        TransportType::Quic => seq!["linux"@, "windows"@, "macos"@],
        TransportType::Tcp => seq!["linux"@, "windows"@, "macos"@],
    }
}

/// The platform names of a capability record, as character sequences.
pub open spec fn platform_names(v: Seq<String>) -> Seq<Seq<char>> {
    v.map_values(|s: String| s@)
}

/// The capability record of a backend, as `for_transport` builds it.
pub open spec fn spec_for_transport(c: BackendCapabilities, t: TransportType) -> bool {
    let f = spec_caps(t);
    &&& c.transport_type == t
    &&& c.max_throughput_bps == f.max_throughput_bps
    &&& c.min_bandwidth_bps == f.min_bandwidth_bps
    &&& c.supports_zero_copy == f.supports_zero_copy
    &&& c.uses_kernel_bypass == f.uses_kernel_bypass
    &&& c.requires_special_hardware == f.requires_special_hardware
    &&& c.min_cpu_cores == f.min_cpu_cores
    &&& c.min_ram_bytes == f.min_ram_bytes
    &&& c.hardware_cost_usd == f.hardware_cost_usd
    &&& platform_names(c.supported_platforms@) == spec_supported_platforms(t)
}

/// A backend record fits a platform: the platform is listed, it has the
/// cores and RAM required, and the backend-specific test passes.
pub open spec fn spec_caps_available(c: BackendCapabilities, p: Platform) -> bool {
    &&& platform_names(c.supported_platforms@).contains(p.os@)
    &&& p.cpu_cores >= c.min_cpu_cores
    &&& p.total_ram_bytes >= c.min_ram_bytes
    &&& match c.transport_type {
        TransportType::IoUring => spec_supports_io_uring(
            p.os@,
            match p.kernel_version {
                Some(k) => Some(k@),
                None => None,
            },
        ),
        TransportType::Dpdk => spec_supports_dpdk(p.os@),
        _ => true,
    }
}

/// Performance tier of a throughput figure.
pub open spec fn spec_performance_tier(bps: u64) -> Seq<char> {
    if bps >= 10_000_000_000 {
        "Enterprise"@
    } else if bps >= 1_000_000_000 {
        "Professional"@
    } else if bps >= 500_000_000 {
        "Standard"@
    } else {
        "Basic"@
    }
}

fn names(list: &[&str]) -> (v: Vec<String>)
    ensures
        platform_names(v@) == list@.map_values(|s: &str| s@),
{
    let mut v: Vec<String> = Vec::new();
    let mut i: usize = 0;
    while i < list.len()
        invariant
            i <= list@.len(),
            platform_names(v@) == list@.take(i as int).map_values(|s: &str| s@),
        decreases list@.len() - i,
    {
        v.push(list[i].to_string());
        assert(list@.take(i + 1).map_values(|s: &str| s@) =~= list@.take(i as int).map_values(
            |s: &str| s@,
        ).push(list@[i as int]@));
        assert(platform_names(v@) =~= platform_names(v@.drop_last()).push(v@.last()@));
        i = i + 1;
    }
    assert(list@.take(list@.len() as int) =~= list@);
    v
}

impl BackendCapabilities {
    /// Get capabilities for a transport type.
    pub fn for_transport(transport_type: TransportType) -> (c: Self)
        ensures
            spec_for_transport(c, transport_type),
    {
        match transport_type {
            TransportType::IoUring => {
                let platforms = names(&["linux"]);
                proof {
                    reveal_strlit("linux");
                    assert(platform_names(platforms@) =~= spec_supported_platforms(transport_type));
                }
                BackendCapabilities {
                    transport_type,
                    max_throughput_bps: 20_000_000_000,
                    min_bandwidth_bps: 1_250_000_000,
                    supports_zero_copy: true,
                    uses_kernel_bypass: true,
                    requires_special_hardware: false,
                    min_cpu_cores: 4,
                    min_ram_bytes: 4_000_000_000,
                    supported_platforms: platforms,
                    hardware_cost_usd: 300,
                }
            },
            TransportType::Dpdk => {
                let platforms = names(&["linux", "freebsd", "windows"]);
                assert(platform_names(platforms@) =~= spec_supported_platforms(transport_type));
                BackendCapabilities {
                    transport_type,
                    max_throughput_bps: 10_000_000_000,
                    min_bandwidth_bps: 10_000_000_000,
                    supports_zero_copy: true,
                    uses_kernel_bypass: true,
                    requires_special_hardware: true,
                    min_cpu_cores: 8,
                    min_ram_bytes: 16_000_000_000,
                    supported_platforms: platforms,
                    hardware_cost_usd: 2000,
                }
            },
            TransportType::Quic => {
                let platforms = names(&["linux", "windows", "macos"]);
                assert(platform_names(platforms@) =~= spec_supported_platforms(transport_type));
                BackendCapabilities {
                    transport_type,
                    max_throughput_bps: 1_400_000_000,
                    min_bandwidth_bps: 125_000_000,
                    supports_zero_copy: false,
                    uses_kernel_bypass: false,
                    requires_special_hardware: false,
                    min_cpu_cores: 2,
                    min_ram_bytes: 2_000_000_000,
                    supported_platforms: platforms,
                    hardware_cost_usd: 50,
                }
            },
            TransportType::Tcp => {
                let platforms = names(&["linux", "windows", "macos"]);
                assert(platform_names(platforms@) =~= spec_supported_platforms(transport_type));
                BackendCapabilities {
                    transport_type,
                    max_throughput_bps: 250_000_000,
                    min_bandwidth_bps: 125_000_000,
                    supports_zero_copy: TCP_ZERO_COPY,
                    uses_kernel_bypass: false,
                    requires_special_hardware: false,
                    min_cpu_cores: 1,
                    min_ram_bytes: 1_000_000_000,
                    supported_platforms: platforms,
                    hardware_cost_usd: 20,
                }
            },
        }
    }

    /// Check if backend is available on the given platform.
    pub fn is_available(&self, platform: &Platform) -> (r: bool)
        ensures
            r == spec_caps_available(*self, *platform),
    {
        let mut listed = false;
        let mut i: usize = 0;
        while i < self.supported_platforms.len()
            invariant
                i <= self.supported_platforms@.len(),
                listed <==> exists|j: int|
                    0 <= j < i && #[trigger] self.supported_platforms@[j]@ == platform.os@,
            decreases self.supported_platforms@.len() - i,
        {
            let eq = self.supported_platforms[i] == platform.os;
            listed = listed || eq;
            i = i + 1;
        }
        proof {
            let names = platform_names(self.supported_platforms@);
            if listed {
                let j = choose|j: int|
                    0 <= j < i && #[trigger] self.supported_platforms@[j]@ == platform.os@;
                assert(names[j] == platform.os@);
            } else {
                assert forall|j: int| 0 <= j < names.len() implies names[j] != platform.os@ by {
                    assert(names[j] == self.supported_platforms@[j]@);
                }
            }
        }
        if !listed {
            return false;
        }
        if platform.cpu_cores < self.min_cpu_cores {
            return false;
        }
        if platform.total_ram_bytes < self.min_ram_bytes {
            return false;
        }
        match self.transport_type {
            TransportType::IoUring => platform.supports_io_uring(),
            TransportType::Dpdk => platform.supports_dpdk(),
            TransportType::Quic => true,
            TransportType::Tcp => true,
        }
    }

    /// Get performance tier.
    pub fn performance_tier(&self) -> (s: &'static str)
        ensures
            s@ == spec_performance_tier(self.max_throughput_bps),
    {
        if self.max_throughput_bps >= 10_000_000_000 {
            "Enterprise"
        } else if self.max_throughput_bps >= 1_000_000_000 {
            "Professional"
        } else if self.max_throughput_bps >= 500_000_000 {
            "Standard"
        } else {
            "Basic"
        }
    }
}

} // verus!
