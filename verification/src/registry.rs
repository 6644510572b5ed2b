//! The device registry: an immutable mapping from device names to hardware
//! addresses, built once at startup from decoded configuration entries.
//!
//! Construction validates every entry eagerly — naming policy first, then
//! address syntax, then uniqueness — so that a malformed configuration fails
//! before the service accepts any traffic. The first offending entry aborts
//! construction and is named in the error.

use crate::addr::denoted_octets;
use crate::addr::is_plain_hex_text;
use crate::addr::is_valid_addr_text;
use crate::addr::parse_error_message;
use crate::addr::parse_hardware_addr;
use crate::addr::separated_digits_hex;
use crate::addr::separators_ok;
use crate::addr::HardwareAddr;
use crate::addr::ParseError;
use crate::device_name::is_valid_device_name;
use crate::device_name::validate_device_name;
use crate::device_name::validation_message;
use crate::device_name::ValidationError;
use vstd::prelude::*;
use vstd::string::StrSliceExecFns;
use vstd::string::StringExecFns;

verus! {

/// What was wrong with a rejected configuration entry.
#[derive(Clone, Copy, Debug, PartialEq, Eq, Structural)]
pub enum ConfigCause {
    /// The device name broke the naming policy.
    Name(ValidationError),
    /// The address text was malformed.
    Address(ParseError),
    /// The device name already appeared in an earlier entry.
    DuplicateName,
}

/// A configuration rejection: the offending device name and the cause.
#[derive(Clone, Debug, PartialEq, Eq)]
pub struct ConfigError {
    /// The device name of the first rejected entry.
    pub device: String,
    /// What was wrong with it.
    pub cause: ConfigCause,
}

/// The requested device name is not in the registry.
#[derive(Clone, Copy, Debug, PartialEq, Eq, Structural)]
pub struct NotFoundError;

/// Entry number `i` of the raw configuration is rejected: its name breaks
/// the naming policy, its address text is malformed, or an earlier entry
/// already used its name.
pub open spec fn entry_rejected(s: Seq<(String, String)>, i: int) -> bool {
    ||| !is_valid_device_name(s[i].0@)
    ||| !is_valid_addr_text(s[i].1@)
    ||| exists|j: int| 0 <= j < i && #[trigger] s[j].0@ == s[i].0@
}

/// `cause` describes exactly what is wrong with entry number `i`: the kinds
/// are tried in construction order (name, then address, then uniqueness),
/// and the carried error pins down the sub-cause.
pub open spec fn cause_for(s: Seq<(String, String)>, i: int, cause: ConfigCause) -> bool {
    match cause {
        ConfigCause::Name(v) => !is_valid_device_name(s[i].0@) && ((v
            matches ValidationError::EmptyName) <==> s[i].0@.len() == 0),
        ConfigCause::Address(e) => {
            let t = s[i].1@;
            is_valid_device_name(s[i].0@) && !is_valid_addr_text(t) && ((e
                matches ParseError::WrongLength) <==> (t.len() != 12 && t.len() != 17)) && ((e
                matches ParseError::InvalidSeparator) <==> (t.len() == 17 && !separators_ok(t)))
                && ((e matches ParseError::InvalidHexDigit) <==> ((t.len() == 12
                && !is_plain_hex_text(t)) || (t.len() == 17 && separators_ok(t)
                && !separated_digits_hex(t))))
        },
        ConfigCause::DuplicateName => is_valid_device_name(s[i].0@) && is_valid_addr_text(s[i].1@)
            && exists|j: int| 0 <= j < i && #[trigger] s[j].0@ == s[i].0@,
    }
}

/// The mapping denoted by raw configuration entries: each device name to
/// the octets its address text denotes.
pub open spec fn config_map(s: Seq<(String, String)>) -> Map<Seq<char>, Seq<u8>>
    decreases s.len(),
{
    if s.len() == 0 {
        Map::empty()
    } else {
        config_map(s.drop_last()).insert(s.last().0@, denoted_octets(s.last().1@))
    }
}

/// The mapping held by built registry entries.
spec fn entry_map(s: Seq<(String, HardwareAddr)>) -> Map<Seq<char>, Seq<u8>>
    decreases s.len(),
{
    if s.len() == 0 {
        Map::empty()
    } else {
        entry_map(s.drop_last()).insert(s.last().0@, s.last().1@)
    }
}

/// The immutable name-to-address registry. Built exactly once, never
/// mutated, shared read-only by every request handler.
#[derive(Debug)]
pub struct DeviceRegistry {
    entries: Vec<(String, HardwareAddr)>,
}

impl View for DeviceRegistry {
    type V = Map<Seq<char>, Seq<u8>>;

    closed spec fn view(&self) -> Map<Seq<char>, Seq<u8>> {
        entry_map(self.entries@)
    }
}

impl DeviceRegistry {
    #[verifier::type_invariant]
    closed spec fn wf(self) -> bool {
        forall|p: int, q: int|
            0 <= p < q < self.entries@.len() ==> #[trigger] self.entries@[p].0@ != #[trigger] self.entries@[q].0@
    }
}

/// Character-for-character string equality.
fn str_eq(a: &str, b: &str) -> (r: bool)
    ensures
        r == (a@ == b@),
{
    let na = a.unicode_len();
    let nb = b.unicode_len();
    if na != nb {
        return false;
    }
    let mut i: usize = 0;
    while i < na
        invariant
            i <= na,
            na == a@.len(),
            nb == b@.len(),
            na == nb,
            forall|j: int| 0 <= j < i ==> a@[j] == b@[j],
        decreases na - i,
    {
        let ca = a.get_char(i);
        let cb = b.get_char(i);
        if ca != cb {
            return false;
        }
        i += 1;
    }
    proof {
        assert(a@ =~= b@);
    }
    true
}

proof fn lemma_entry_map_get(s: Seq<(String, HardwareAddr)>, i: int)
    requires
        0 <= i < s.len(),
        forall|p: int, q: int| 0 <= p < q < s.len() ==> #[trigger] s[p].0@ != #[trigger] s[q].0@,
    ensures
        entry_map(s).contains_key(s[i].0@),
        entry_map(s)[s[i].0@] == s[i].1@,
    decreases s.len(),
{
    if i < s.len() - 1 {
        lemma_entry_map_get(s.drop_last(), i);
        assert(s[s.len() - 1].0@ != s[i].0@);
    }
}

proof fn lemma_entry_map_absent(s: Seq<(String, HardwareAddr)>, name: Seq<char>)
    requires
        forall|j: int| 0 <= j < s.len() ==> #[trigger] s[j].0@ != name,
    ensures
        !entry_map(s).contains_key(name),
    decreases s.len(),
{
    if s.len() > 0 {
        lemma_entry_map_absent(s.drop_last(), name);
    }
}

impl DeviceRegistry {
    /// Pure read: the address registered under `name`, or `NotFoundError`
    /// exactly when the registry holds no device of that name.
    pub fn lookup(&self, name: &str) -> (r: Result<HardwareAddr, NotFoundError>)
        ensures
            self@.contains_key(name@) ==> (r matches Ok(a) && a@ == self@[name@]),
            !self@.contains_key(name@) ==> r is Err,
    {
        proof {
            use_type_invariant(&*self);
        }
        let n = self.entries.len();
        let mut i: usize = 0;
        while i < n
            invariant
                i <= n,
                n == self.entries@.len(),
                self.wf(),
                forall|j: int| 0 <= j < i ==> #[trigger] self.entries@[j].0@ != name@,
            decreases n - i,
        {
            if str_eq(self.entries[i].0.as_str(), name) {
                proof {
                    lemma_entry_map_get(self.entries@, i as int);
                }
                return Ok(self.entries[i].1);
            }
            i += 1;
        }
        proof {
            lemma_entry_map_absent(self.entries@, name@);
        }
        Err(NotFoundError)
    }
}

proof fn lemma_entry_map_matches_config_map(
    built: Seq<(String, HardwareAddr)>,
    raw: Seq<(String, String)>,
)
    requires
        built.len() == raw.len(),
        forall|m: int|
            0 <= m < raw.len() ==> #[trigger] built[m].0@ == raw[m].0@ && built[m].1@
                == denoted_octets(raw[m].1@),
    ensures
        entry_map(built) == config_map(raw),
    decreases raw.len(),
{
    if raw.len() > 0 {
        lemma_entry_map_matches_config_map(built.drop_last(), raw.drop_last());
    }
}

/// Builds the registry from decoded configuration entries, in order:
/// every entry's device name is validated, its address text parsed, and its
/// name checked against all earlier entries; the first offending entry
/// aborts construction with an error naming that device and the cause.
pub fn build_registry(entries: &Vec<(String, String)>) -> (r: Result<DeviceRegistry, ConfigError>)
    ensures
        r is Ok <==> (forall|i: int| 0 <= i < entries@.len() ==> !entry_rejected(entries@, i)),
        r matches Ok(reg) ==> reg@ == config_map(entries@),
        r matches Err(e) ==> exists|i: int|
            0 <= i < entries@.len() && #[trigger] entry_rejected(entries@, i) && (forall|j: int|
                0 <= j < i ==> !entry_rejected(entries@, j)) && e.device@ == entries@[i].0@
                && cause_for(entries@, i, e.cause),
{
    let n = entries.len();
    let mut built: Vec<(String, HardwareAddr)> = Vec::new();
    let mut i: usize = 0;
    while i < n
        invariant
            i <= n,
            n == entries@.len(),
            built@.len() == i,
            forall|m: int| 0 <= m < i ==> !entry_rejected(entries@, m),
            forall|m: int| 0 <= m < i ==> built@[m].0@ == entries@[m].0@,
            forall|m: int| 0 <= m < i ==> built@[m].1@ == denoted_octets(entries@[m].1@),
        decreases n - i,
    {
        let name = &entries[i].0;
        match validate_device_name(name.as_str()) {
            Ok(()) => {},
            Err(v) => {
                proof {
                    assert(entry_rejected(entries@, i as int));
                }
                return Err(ConfigError { device: name.clone(), cause: ConfigCause::Name(v) });
            },
        }
        let a = match parse_hardware_addr(entries[i].1.as_str()) {
            Ok(a) => a,
            Err(p) => {
                proof {
                    assert(entry_rejected(entries@, i as int));
                }
                return Err(ConfigError { device: name.clone(), cause: ConfigCause::Address(p) });
            },
        };
        let mut j: usize = 0;
        while j < i
            invariant
                j <= i,
                i < n,
                n == entries@.len(),
                built@.len() == i,
                name@ == entries@[i as int].0@,
                is_valid_device_name(entries@[i as int].0@),
                is_valid_addr_text(entries@[i as int].1@),
                forall|m: int| 0 <= m < i ==> !entry_rejected(entries@, m),
                forall|m: int| 0 <= m < i ==> built@[m].0@ == entries@[m].0@,
                forall|m: int| 0 <= m < j ==> entries@[m].0@ != entries@[i as int].0@,
            decreases i - j,
        {
            if str_eq(built[j].0.as_str(), name.as_str()) {
                proof {
                    assert(entries@[j as int].0@ == entries@[i as int].0@);
                    assert(entry_rejected(entries@, i as int));
                }
                return Err(
                    ConfigError { device: name.clone(), cause: ConfigCause::DuplicateName },
                );
            }
            proof {
                assert(entries@[j as int].0@ != entries@[i as int].0@);
            }
            j += 1;
        }
        built.push((name.clone(), a));
        i += 1;
    }
    proof {
        lemma_entry_map_matches_config_map(built@, entries@);
        assert forall|p: int, q: int| 0 <= p < q < built@.len() implies #[trigger] built@[p].0@
            != #[trigger] built@[q].0@ by {
            assert(!entry_rejected(entries@, q));
        }
    }
    Ok(DeviceRegistry { entries: built })
}

/// The composition law of construction and lookup: in the mapping built
/// from raw entries none of which is rejected, every entry's name is
/// present and maps to exactly the octets its address text denotes, and a
/// name that appears in no entry is absent.
pub proof fn lemma_build_then_lookup(raw: Seq<(String, String)>, name: Seq<char>)
    requires
        forall|i: int| 0 <= i < raw.len() ==> !entry_rejected(raw, i),
    ensures
        forall|i: int|
            0 <= i < raw.len() && #[trigger] raw[i].0@ == name ==> config_map(raw).contains_key(
                name,
            ) && config_map(raw)[name] == denoted_octets(raw[i].1@),
        (forall|i: int| 0 <= i < raw.len() ==> #[trigger] raw[i].0@ != name) ==> !config_map(
            raw,
        ).contains_key(name),
    decreases raw.len(),
{
    if raw.len() > 0 {
        assert forall|i: int| 0 <= i < raw.drop_last().len() implies !entry_rejected(
            raw.drop_last(),
            i,
        ) by {
            assert(!entry_rejected(raw, i));
            assert(raw.drop_last()[i] == raw[i]);
            if entry_rejected(raw.drop_last(), i) {
                if exists|j: int| 0 <= j < i && #[trigger] raw.drop_last()[j].0@
                    == raw.drop_last()[i].0@ {
                    let j = choose|j: int|
                        0 <= j < i && #[trigger] raw.drop_last()[j].0@ == raw.drop_last()[i].0@;
                    assert(raw[j].0@ == raw[i].0@);
                }
            }
        }
        lemma_build_then_lookup(raw.drop_last(), name);
        let last = raw.len() - 1;
        assert forall|i: int| 0 <= i < raw.len() && #[trigger] raw[i].0@ == name implies config_map(
            raw,
        ).contains_key(name) && config_map(raw)[name] == denoted_octets(raw[i].1@) by {
            if i == last {
            } else {
                assert(raw.drop_last()[i] == raw[i]);
                assert(!entry_rejected(raw, last));
                assert(raw[last].0@ != raw[i].0@);
            }
        }
    }
}

/// The plain-text description of a configuration-entry rejection.
pub open spec fn config_cause_message(c: ConfigCause) -> Seq<char> {
    match c {
        ConfigCause::Name(v) => validation_message(v),
        ConfigCause::Address(e) => parse_error_message(e),
        ConfigCause::DuplicateName => "Device name is already in use"@,
    }
}

impl ConfigCause {
    /// A plain-text description of the rejection.
    pub fn message(&self) -> (r: String)
        ensures
            r@ == config_cause_message(*self),
    {
        match self {
            ConfigCause::Name(v) => v.message(),
            ConfigCause::Address(e) => e.message(),
            ConfigCause::DuplicateName => "Device name is already in use".to_owned(),
        }
    }
}

impl ConfigError {
    /// A plain-text description naming the offending device and the cause.
    pub fn message(&self) -> (r: String)
        ensures
            r@ == "Invalid configuration for device "@ + self.device@ + ": "@
                + config_cause_message(self.cause),
    {
        let mut out = "Invalid configuration for device ".to_owned();
        out.append(self.device.as_str());
        out.append(": ");
        let cause = self.cause.message();
        out.append(cause.as_str());
        proof {
            assert(out@ =~= "Invalid configuration for device "@ + self.device@ + ": "@
                + config_cause_message(self.cause));
        }
        out
    }
}

} // verus!
