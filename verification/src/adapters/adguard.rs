//! The ad blocker: whether it runs, and the counts that its local API
//! reports.

use vstd::prelude::*;
use crate::location::{succeeded, ShellOutput};
use crate::number::{decimal, push_decimal};

verus! {

/// The state of the ad blocker.
#[derive(Debug)]
pub struct AdguardStatus {
    pub running: bool,
    pub dns_queries_today: u64,
    pub blocked_today: u64,
    pub blocklist_count: u32,
}

/// What the API's statistics hold of interest; a field that the answer
/// leaves out or sets to null is `None`.
#[derive(Debug, Clone, Copy)]
pub struct StatsResponse {
    pub num_dns_queries: Option<u64>,
    pub num_blocked_filtering: Option<u64>,
}

/// One block list in the API's filtering status.
#[derive(Debug, Clone, Copy)]
pub struct Filter {
    pub rules_count: Option<u32>,
    pub enabled: Option<bool>,
}

/// The API's filtering status.
#[derive(Debug)]
pub struct FilterStatus {
    pub filters: Option<Vec<Filter>>,
}

/// What a block list adds to the count of rules: its rules if it is
/// enabled, with none for a count that is missing.
pub open spec fn rules_of(filter: Filter) -> u32 {
    if filter.enabled == Some(true) {
        match filter.rules_count {
            Some(n) => n,
            None => 0,
        }
    } else {
        0
    }
}

/// The rules of the enabled block lists in `filters`, in 32-bit arithmetic
/// that wraps around.
pub open spec fn rules_sum(filters: Seq<Filter>) -> u32
    decreases filters.len(),
{
    if filters.len() == 0 {
        0
    } else {
        rules_sum(filters.drop_last()).wrapping_add(rules_of(filters.last()))
    }
}

/// The command that asks whether the ad blocker runs.
pub fn active_command() -> (r: String)
    ensures
        r@ == "systemctl is-active AdGuardHome 2>/dev/null"@,
{
    String::from_str("systemctl is-active AdGuardHome 2>/dev/null")
}

/// The command that fetches `path` from the API, signing in with
/// `credentials`, a user name and a password with a colon between them.
pub fn api_command(credentials: &str, path: &str) -> (r: String)
    ensures
        r@ == "curl -s -u "@ + credentials@ + " http://localhost:3000/control/"@ + path@,
{
    let mut out = String::from_str("curl -s -u ");
    out.append(credentials);
    out.append(" http://localhost:3000/control/");
    out.append(path);
    out
}

/// The command that fetches the statistics.
pub fn stats_command(credentials: &str) -> (r: String)
    ensures
        r@ == "curl -s -u "@ + credentials@ + " http://localhost:3000/control/"@ + "stats"@,
{
    api_command(credentials, "stats")
}

/// The command that fetches the filtering status.
pub fn filter_command(credentials: &str) -> (r: String)
    ensures
        r@ == "curl -s -u "@ + credentials@ + " http://localhost:3000/control/"@
            + "filtering/status"@,
{
    api_command(credentials, "filtering/status")
}

/// Queries answered and queries blocked, from the statistics. `success`
/// says whether the fetch went through, `parsed` holds the answer if it
/// could be read. What is missing counts as zero.
pub fn get_stats(success: bool, parsed: Option<StatsResponse>) -> (r: (u64, u64))
    ensures
        r.0 == (match parsed {
            Some(StatsResponse { num_dns_queries: Some(n), .. }) if success => n,
            _ => 0,
        }),
        r.1 == (match parsed {
            Some(StatsResponse { num_blocked_filtering: Some(n), .. }) if success => n,
            _ => 0,
        }),
{
    if !success {
        return (0, 0);
    }
    match parsed {
        Some(stats) => (
            match stats.num_dns_queries {
                Some(n) => n,
                None => 0,
            },
            match stats.num_blocked_filtering {
                Some(n) => n,
                None => 0,
            },
        ),
        None => (0, 0),
    }
}

/// The number of rules in force, from the filtering status. `success` says
/// whether the fetch went through, `parsed` holds the answer if it could be
/// read.
pub fn get_filter_rules(success: bool, parsed: Option<FilterStatus>) -> (r: u32)
    ensures
        r == (match parsed {
            Some(FilterStatus { filters: Some(filters) }) if success => rules_sum(filters@),
            _ => 0,
        }),
{
    if !success {
        return 0;
    }
    let filters = match parsed {
        Some(FilterStatus { filters: Some(filters) }) => filters,
        _ => {
            return 0;
        },
    };
    let mut total: u32 = 0;
    let mut i: usize = 0;
    assert(filters@.take(0) =~= Seq::<Filter>::empty());
    while i < filters.len()
        invariant
            i <= filters.len(),
            total == rules_sum(filters@.take(i as int)),
        decreases filters.len() - i,
    {
        assert(filters@.take(i + 1).drop_last() =~= filters@.take(i as int));
        let filter = filters[i];
        let enabled = match filter.enabled {
            Some(b) => b,
            None => false,
        };
        let rules: u32 = if enabled {
            match filter.rules_count {
                Some(n) => n,
                None => 0,
            }
        } else {
            0
        };
        total = total.wrapping_add(rules);
        i += 1;
    }
    assert(filters@.take(i as int) =~= filters@);
    total
}

/// The state of the ad blocker. `active` is the output of asking whether it
/// runs, `None` if that could not be asked; `stats` and `rules` are what
/// the API gave, `None` where it could not be asked. An ad blocker that
/// does not run has all counts at zero.
pub fn get_status(active: Option<&ShellOutput>, stats: Option<(u64, u64)>, rules: Option<u32>) -> (r:
    AdguardStatus)
    ensures
        r.running == (active matches Some(output) && output.success),
        r.dns_queries_today == (match stats {
            Some(s) if r.running => s.0,
            _ => 0,
        }),
        r.blocked_today == (match stats {
            Some(s) if r.running => s.1,
            _ => 0,
        }),
        r.blocklist_count == (match rules {
            Some(n) if r.running => n,
            _ => 0,
        }),
{
    let running = succeeded(active);
    if !running {
        return AdguardStatus {
            running: false,
            dns_queries_today: 0,
            blocked_today: 0,
            blocklist_count: 0,
        };
    }
    let (queries, blocked) = match stats {
        Some(s) => s,
        None => (0, 0),
    };
    let count = match rules {
        Some(n) => n,
        None => 0,
    };
    AdguardStatus {
        running,
        dns_queries_today: queries,
        blocked_today: blocked,
        blocklist_count: count,
    }
}

impl AdguardStatus {
    /// The state as a line of text.
    pub open spec fn rendered(&self) -> Seq<char> {
        if !self.running {
            "  AdGuard Home: not running\n"@
        } else {
            "  AdGuard Home: active ("@ + decimal(self.dns_queries_today as nat) + " queries, "@
                + decimal(self.blocked_today as nat) + " blocked, "@ + decimal(
                self.blocklist_count as nat,
            ) + " rules)\n"@
        }
    }

    /// The state as a line of text.
    pub fn render(&self) -> (r: String)
        ensures
            r@ == self.rendered(),
    {
        if !self.running {
            return String::from_str("  AdGuard Home: not running\n");
        }
        let mut out = String::from_str("  AdGuard Home: active (");
        push_decimal(&mut out, self.dns_queries_today);
        out.append(" queries, ");
        push_decimal(&mut out, self.blocked_today);
        out.append(" blocked, ");
        push_decimal(&mut out, self.blocklist_count as u64);
        out.append(" rules)\n");
        out
    }
}

} // verus!
