//! Run configuration: the raw command-line arguments and the processed form
//! every stage of the pipeline reads.

use crate::defaults::{ipv4_resolvers, spec_default_resolvers};
use crate::misc::{sanitize_target_string, spec_sanitize};
use crate::text::str_views;
use vstd::prelude::*;

verus! {

use vstd::string::StringExecFns;

broadcast use vstd::string::group_string_axioms;

/// Raw command-line arguments, as the CLI hands them in.
pub struct Args {
    /// Target host.
    pub target: Option<String>,
    /// Files holding a list of targets.
    pub files: Vec<String>,
    /// Write a log file named by date.
    pub output: bool,
    /// Write CSV output to this file name instead.
    pub unique_output: Option<String>,
    /// Remove informative messages.
    pub quiet: bool,
    /// Number of resolution threads.
    pub threads: Option<usize>,
    /// Files holding a list of DNS server addresses.
    pub custom_resolvers: Vec<String>,
    /// Ports to scan.
    pub ports: Option<String>,
    /// Minimum packet rate for the scanner.
    pub min_rate: Option<String>,
    /// Fast scanning, without version detection.
    pub fast_scan: bool,
    /// Directory for scan artifacts and log files.
    pub logs_dir: String,
    /// Keep the scan artifacts after the run.
    pub no_keep_nmap_logs: bool,
    /// Raw output instead of a table.
    pub raw_output: bool,
    /// HOST:IP output format.
    pub url_output: bool,
    /// Read targets from standard input.
    pub stdin: bool,
}

/// Processed arguments with computed fields and flags.
pub struct ProcessedArgs {
    pub target: String,
    pub file_name: String,
    pub version: String,
    pub logs_dir: String,
    pub threads: usize,
    pub ports: String,
    pub with_output: bool,
    pub unique_output_flag: bool,
    pub min_rate: String,
    pub from_file_flag: bool,
    pub quiet_flag: bool,
    pub custom_resolvers: bool,
    pub custom_ports_range: bool,
    pub no_keep_nmap_logs: bool,
    pub raw_output: bool,
    pub fast_scan: bool,
    pub url_output: bool,
    pub from_stdin: bool,
    pub files: Vec<String>,
    pub resolvers: Vec<String>,
    pub targets: Vec<String>,
}

/// Relies on chrono's Utc::now and its format: the timestamp suffix for a
/// dated log file name. The result depends on the clock, so nothing is
/// promised of it.
#[verifier::external_body]
fn utc_log_stamp() -> String {
    chrono::Utc::now().format("-log-%Y-%m-%d_%H-%M-%S").to_string()
}

impl Args {
    /// Computes the processed arguments: the sanitized target, the output
    /// file name, the thread count and the resolver list.
    pub fn into_processed_args(self) -> (r: ProcessedArgs)
        ensures
            r.target@ == match self.target {
                Some(t) => spec_sanitize(t@),
                None => Seq::<char>::empty(),
            },
            self.output ==> exists|st: Seq<char>|
                r.file_name@ == self.logs_dir@ + "/unimap"@ + st + ".csv"@,
            !self.output ==> r.file_name@ == match self.unique_output {
                Some(u) => u@,
                None => Seq::<char>::empty(),
            },
            r.version@ == "0.1.0"@,
            r.logs_dir == self.logs_dir,
            r.threads == if self.ports is Some && self.threads is None {
                30usize
            } else {
                match self.threads {
                    Some(t) => t,
                    None => 50usize,
                }
            },
            r.ports@ == match self.ports {
                Some(p) => p@,
                None => Seq::<char>::empty(),
            },
            r.with_output == (self.output || self.unique_output is Some),
            r.unique_output_flag == self.unique_output is Some,
            r.min_rate@ == match self.min_rate {
                Some(m) => m@,
                None => Seq::<char>::empty(),
            },
            r.from_file_flag == (self.files@.len() > 0),
            r.quiet_flag == self.quiet,
            r.custom_resolvers == (self.custom_resolvers@.len() > 0),
            r.custom_ports_range == self.ports is Some,
            r.no_keep_nmap_logs == self.no_keep_nmap_logs,
            r.raw_output == self.raw_output,
            r.fast_scan == self.fast_scan,
            r.url_output == self.url_output,
            r.from_stdin == self.stdin,
            r.files == self.files,
            self.custom_resolvers@.len() > 0 ==> r.resolvers == self.custom_resolvers,
            self.custom_resolvers@.len() == 0 ==> str_views(r.resolvers@)
                == spec_default_resolvers(),
            r.targets@ == Seq::<String>::empty(),
    {
        let target = match self.target {
            Some(t) => sanitize_target_string(t),
            None => String::new(),
        };
        let file_name = if self.output {
            let stamp = utc_log_stamp();
            let mut f = self.logs_dir.clone();
            f.append("/unimap");
            f.append(stamp.as_str());
            f.append(".csv");
            proof {
                assert(f@ == self.logs_dir@ + "/unimap"@ + stamp@ + ".csv"@);
            }
            f
        } else {
            match &self.unique_output {
                Some(u) => u.clone(),
                None => String::new(),
            }
        };
        let threads: usize = if self.ports.is_some() && self.threads.is_none() {
            30
        } else {
            match self.threads {
                Some(t) => t,
                None => 50,
            }
        };
        let custom_resolvers_flag = self.custom_resolvers.len() > 0;
        let custom_ports_range = self.ports.is_some();
        let ports_value = match self.ports {
            Some(p) => p,
            None => String::new(),
        };
        let min_rate = match self.min_rate {
            Some(m) => m,
            None => String::new(),
        };
        let resolvers = if custom_resolvers_flag {
            self.custom_resolvers
        } else {
            ipv4_resolvers()
        };
        ProcessedArgs {
            target,
            file_name,
            version: "0.1.0".to_owned(),
            logs_dir: self.logs_dir,
            threads,
            ports: ports_value,
            with_output: self.output || self.unique_output.is_some(),
            unique_output_flag: self.unique_output.is_some(),
            min_rate,
            from_file_flag: self.files.len() > 0,
            quiet_flag: self.quiet,
            custom_resolvers: custom_resolvers_flag,
            custom_ports_range,
            no_keep_nmap_logs: self.no_keep_nmap_logs,
            raw_output: self.raw_output,
            fast_scan: self.fast_scan,
            url_output: self.url_output,
            from_stdin: self.stdin,
            files: self.files,
            resolvers,
            targets: Vec::new(),
        }
    }
}

} // verus!
