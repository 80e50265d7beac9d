//! The arguments of the command line.

use vstd::prelude::*;

use crate::config::Config;
use crate::decimal;
use crate::ident;
use crate::text;

verus! {

/// Where an argument first stands.
pub open spec fn argument_at(args: Seq<Seq<char>>, name: Seq<char>) -> Option<nat>
    decreases args.len(),
{
    if args.len() == 0 {
        None
    } else if args[0] == name {
        Some(0)
    } else {
        match argument_at(args.drop_first(), name) {
            Some(i) => Some(i + 1),
            None => None,
        }
    }
}

/// What follows a flag.
pub open spec fn flag_value(args: Seq<Seq<char>>, name: Seq<char>) -> Option<Seq<char>> {
    match argument_at(args, name) {
        Some(i) => if i + 1 < args.len() {
            Some(args[i as int + 1])
        } else {
            None
        },
        None => None,
    }
}

fn position(args: &Vec<String>, name: &str) -> (r: Option<usize>)
    ensures
        match r {
            Some(i) => i < args@.len() && argument_at(text::list_view(args@), name@) == Some(
                i as nat,
            ),
            None => argument_at(text::list_view(args@), name@) is None,
        },
{
    let ghost all = text::list_view(args@);
    let mut i: usize = 0;
    proof {
        assert(all.skip(0) =~= all);
    }
    while i < args.len()
        invariant
            i <= args@.len(),
            all == text::list_view(args@),
            argument_at(all, name@) == (match argument_at(all.skip(i as int), name@) {
                Some(n) => Some(n + i as nat),
                None => None,
            }),
        decreases args@.len() - i,
    {
        proof {
            assert(all.skip(i as int)[0] == args@[i as int]@);
            assert(all.skip(i as int).drop_first() =~= all.skip(i + 1));
        }
        if text::same(args[i].as_str(), name) {
            return Some(i);
        }
        i += 1;
    }
    None
}

/// What follows a flag, the first time that it is given.
pub fn flag(args: &Vec<String>, name: &str) -> (r: Option<String>)
    ensures
        text::opt_view(r) == flag_value(text::list_view(args@), name@),
{
    match position(args, name) {
        Some(i) => if args.len() - i > 1 {
            Some(args[i + 1].clone())
        } else {
            None
        },
        None => None,
    }
}

/// Whether a flag is given.
pub fn has_flag(args: &Vec<String>, name: &str) -> (r: bool)
    ensures
        r == text::list_view(args@).contains(name@),
{
    crate::config::contains_text(args, name)
}

/// For how many seconds keys are kept that were replaced: what `--prune-days`
/// gives, in days.
pub open spec fn prune_age(args: Seq<Seq<char>>) -> Result<Option<u64>, Seq<char>> {
    match flag_value(args, "--prune-days"@) {
        None => Ok(None),
        Some(d) => match decimal::unsigned_value(d) {
            Some(days) => if days * 86400 <= u64::MAX {
                Ok(Some((days * 86400) as u64))
            } else {
                Err("invalid --prune-days"@)
            },
            None => Err("invalid --prune-days"@),
        },
    }
}

/// Reads for how many seconds keys are kept that were replaced.
pub fn prune_secs(args: &Vec<String>) -> (r: Result<Option<u64>, String>)
    ensures
        match r {
            Ok(n) => prune_age(text::list_view(args@)) == Ok::<Option<u64>, Seq<char>>(n),
            Err(e) => prune_age(text::list_view(args@)) == Err::<Option<u64>, Seq<char>>(e@),
        },
{
    match flag(args, "--prune-days") {
        None => Ok(None),
        Some(d) => match decimal::parse_unsigned(d.as_str()) {
            Some(days) => match days.checked_mul(86400) {
                Some(secs) => Ok(Some(secs)),
                None => Err("invalid --prune-days".to_owned()),
            },
            None => Err("invalid --prune-days".to_owned()),
        },
    }
}

/// The enrollment token that a command asks for: its Person Server, and for how
/// many seconds it is good. It needs a store that another process can read.
pub open spec fn token_order(args: Seq<Seq<char>>, cfg: Config) -> Result<
    (Option<Seq<char>>, u64),
    Seq<char>,
> {
    let ps = flag_value(args, "--ps"@);
    let ttl = match flag_value(args, "--ttl"@) {
        Some(s) => decimal::unsigned_value(s),
        None => Some(3600u64),
    };
    if ttl is None {
        Err("invalid --ttl"@)
    } else if ps is Some && !ident::is_server_identifier(ps->0, cfg.insecure_dev_mode) {
        Err("ps is not a valid server identifier"@)
    } else if cfg.storage.backend@ == "memory"@ {
        Err(
            "enroll-token requires a persistent storage backend (file or redis); the memory backend is per-process. Configure file/redis storage, or use the admin API on a running server instead."@,
        )
    } else {
        Ok((ps, ttl->0))
    }
}

/// Reads the enrollment token that a command asks for.
pub fn enroll_token_order(args: &Vec<String>, cfg: &Config) -> (r: Result<
    (Option<String>, u64),
    String,
>)
    ensures
        match r {
            Ok(x) => token_order(text::list_view(args@), *cfg) == Ok::<
                (Option<Seq<char>>, u64),
                Seq<char>,
            >((text::opt_view(x.0), x.1)),
            Err(e) => token_order(text::list_view(args@), *cfg) == Err::<
                (Option<Seq<char>>, u64),
                Seq<char>,
            >(e@),
        },
{
    let ps = flag(args, "--ps");
    let ttl: u64 = match flag(args, "--ttl") {
        Some(s) => match decimal::parse_unsigned(s.as_str()) {
            Some(n) => n,
            None => {
                return Err("invalid --ttl".to_owned());
            },
        },
        None => 3600,
    };
    if let Some(p) = &ps {
        if ident::validate_server_identifier(p.as_str(), cfg.insecure_dev_mode).is_err() {
            return Err("ps is not a valid server identifier".to_owned());
        }
    }
    if text::same(cfg.storage.backend.as_str(), "memory") {
        return Err(
            "enroll-token requires a persistent storage backend (file or redis); the memory backend is per-process. Configure file/redis storage, or use the admin API on a running server instead.".to_owned(),
        );
    }
    Ok((ps, ttl))
}

/// A flag is found where it stands first, and its value is what follows it.
pub proof fn law_flag_value(args: Seq<Seq<char>>, name: Seq<char>, i: int)
    requires
        0 <= i < args.len(),
        args[i] == name,
        forall|j: int| 0 <= j < i ==> args[j] != name,
    ensures
        argument_at(args, name) == Some(i as nat),
        i + 1 < args.len() ==> flag_value(args, name) == Some(args[i + 1]),
        i + 1 == args.len() ==> flag_value(args, name) is None,
    decreases args.len(),
{
    if i > 0 {
        let rest = args.drop_first();
        assert(rest[i - 1] == name);
        assert forall|j: int| 0 <= j < i - 1 implies rest[j] != name by {
            assert(rest[j] == args[j + 1]);
        }
        law_flag_value(rest, name, i - 1);
    }
}

/// A flag that is not given has no value.
pub proof fn law_flag_missing(args: Seq<Seq<char>>, name: Seq<char>)
    requires
        !args.contains(name),
    ensures
        argument_at(args, name) is None,
        flag_value(args, name) is None,
    decreases args.len(),
{
    if args.len() > 0 {
        assert(args.contains(args[0]));
        let rest = args.drop_first();
        assert forall|j: int| 0 <= j < rest.len() implies rest[j] != name by {
            assert(rest[j] == args[j + 1]);
            assert(args.contains(args[j + 1]));
        }
        law_flag_missing(rest, name);
    }
}

/// Keys are pruned after the given days, each of 86400 seconds.
pub proof fn law_prune_age(args: Seq<Seq<char>>, days: u64)
    ensures
        flag_value(args, "--prune-days"@) is None ==> prune_age(args) == Ok::<
            Option<u64>,
            Seq<char>,
        >(None),
        flag_value(args, "--prune-days"@) == Some(decimal::numeral(days as nat)) && days * 86400
            <= u64::MAX ==> (prune_age(args) matches Ok(Some(secs)) && secs == days * 24 * 60 * 60),
        flag_value(args, "--prune-days"@) matches Some(d) ==> (decimal::unsigned_value(d) is None
            ==> prune_age(args) is Err),
{
    decimal::law_unsigned_round_trip(days);
}

/// An enrollment token is ordered for the given Person Server and seconds, or an
/// hour; not from a store that ends with the process.
pub proof fn law_token_order(args: Seq<Seq<char>>, cfg: Config)
    ensures
        cfg.storage.backend@ == "memory"@ ==> token_order(args, cfg) is Err,
        token_order(args, cfg) matches Ok((ps, secs)) ==> ps == flag_value(args, "--ps"@) && (
        flag_value(args, "--ttl"@) is None ==> secs == 3600) && (flag_value(args, "--ttl"@) matches Some(
            s,
        ) ==> decimal::unsigned_value(s) == Some(secs)),
        flag_value(args, "--ps"@) matches Some(p) ==> (!ident::is_server_identifier(
            p,
            cfg.insecure_dev_mode,
        ) ==> token_order(args, cfg) is Err),
        flag_value(args, "--ps"@) is None && flag_value(args, "--ttl"@) is None
            && cfg.storage.backend@ != "memory"@ ==> token_order(args, cfg) is Ok,
{
}

} // verus!
