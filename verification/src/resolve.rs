//! From a configuration and the name of a server group to the hosts to serve.
//!
//! A group lists servers by number. Each server is configured under the
//! decimal text of its number and names the host it runs on; each host name
//! stands for an address. Resolving a group looks every server up first, then
//! every host, each in the order of the group, and stops at the first record
//! that is missing.

use crate::job::{HostTarget, HostTargetView};
use vstd::prelude::*;

verus! {

/// A named list of servers.
#[derive(Debug, Clone, PartialEq, Eq)]
pub struct ServerGroup {
    pub name: String,
    pub servers: Vec<i32>,
}

/// What is configured of one server.
#[derive(Debug, Clone, PartialEq, Eq)]
pub struct ServerInfo {
    /// The name by which the server is reported.
    pub name: String,
    /// The name of the host that the server runs on.
    pub host: String,
    pub username: String,
    /// Where the tree goes on this server; `None` for the default place.
    pub output_dir: Option<String>,
}

/// A server, under the text of its number.
#[derive(Debug, Clone, PartialEq, Eq)]
pub struct ServerRecord {
    pub id: String,
    pub info: ServerInfo,
}

/// The address that a host name stands for.
#[derive(Debug, Clone, PartialEq, Eq)]
pub struct HostRecord {
    pub name: String,
    pub address: String,
}

/// The configuration of a run.
#[derive(Debug, Clone, PartialEq, Eq)]
pub struct Config {
    pub server_groups: Vec<ServerGroup>,
    pub servers: Vec<ServerRecord>,
    pub hosts: Vec<HostRecord>,
    pub input_dir: String,
    pub default_output_dir: String,
}

/// Why a group cannot be resolved.
#[derive(Debug, Clone, PartialEq, Eq)]
pub enum ConfigResolutionError {
    /// No group was named.
    NoGroupSpecified,
    /// The configuration holds no group of that name.
    GroupNotFound,
    /// The group lists no server.
    GroupEmpty,
    /// The group lists a server that is not configured.
    ServerNotFound { id: i32 },
    /// A server names a host that is not configured.
    HostNotFound { host: String, server: String },
}

/// What a `ConfigResolutionError` holds, names as character sequences.
pub enum ConfigResolutionErrorView {
    NoGroupSpecified,
    GroupNotFound,
    GroupEmpty,
    ServerNotFound { id: i32 },
    HostNotFound { host: Seq<char>, server: Seq<char> },
}

impl View for ConfigResolutionError {
    type V = ConfigResolutionErrorView;

    open spec fn view(&self) -> ConfigResolutionErrorView {
        match self {
            ConfigResolutionError::NoGroupSpecified => ConfigResolutionErrorView::NoGroupSpecified,
            ConfigResolutionError::GroupNotFound => ConfigResolutionErrorView::GroupNotFound,
            ConfigResolutionError::GroupEmpty => ConfigResolutionErrorView::GroupEmpty,
            ConfigResolutionError::ServerNotFound { id } => {
                ConfigResolutionErrorView::ServerNotFound { id: *id }
            },
            ConfigResolutionError::HostNotFound { host, server } => {
                ConfigResolutionErrorView::HostNotFound { host: host@, server: server@ }
            },
        }
    }
}

impl ConfigResolutionErrorView {
    /// What the user is told of the error.
    pub open spec fn message(self) -> Seq<char> {
        match self {
            ConfigResolutionErrorView::NoGroupSpecified => "No server group specified."@,
            ConfigResolutionErrorView::GroupNotFound => "Server group not found."@,
            ConfigResolutionErrorView::GroupEmpty => "Server group is empty."@,
            ConfigResolutionErrorView::ServerNotFound { id } => "Server not found. ID: "@
                + decimal_of(id as int),
            ConfigResolutionErrorView::HostNotFound { host, server } => "Host not found. Host: "@
                + host + " ID: "@ + server,
        }
    }

    /// The status with which the program ends after the error: 1 for a host
    /// that is not configured, 0 else.
    pub open spec fn exit_code(self) -> i32 {
        match self {
            ConfigResolutionErrorView::HostNotFound { .. } => 1,
            _ => 0,
        }
    }
}

impl ConfigResolutionError {
    /// What the user is told of the error.
    pub fn message(&self) -> (text: String)
        ensures
            text@ == self@.message(),
    {
        match self {
            ConfigResolutionError::NoGroupSpecified => String::from_str(
                "No server group specified.",
            ),
            ConfigResolutionError::GroupNotFound => String::from_str("Server group not found."),
            ConfigResolutionError::GroupEmpty => String::from_str("Server group is empty."),
            ConfigResolutionError::ServerNotFound { id } => {
                let mut text = String::from_str("Server not found. ID: ");
                let number = decimal_text(*id);
                text.append(number.as_str());
                text
            },
            ConfigResolutionError::HostNotFound { host, server } => {
                let mut text = String::from_str("Host not found. Host: ");
                text.append(host.as_str());
                text.append(" ID: ");
                text.append(server.as_str());
                text
            },
        }
    }

    /// The status with which the program ends after the error.
    pub fn exit_code(&self) -> (code: i32)
        ensures
            code == self@.exit_code(),
    {
        match self {
            ConfigResolutionError::HostNotFound { .. } => 1,
            _ => 0,
        }
    }
}

/// The character that writes the digit `d`.
pub open spec fn digit_char(d: int) -> char {
    if d == 0 {
        '0'
    } else if d == 1 {
        '1'
    } else if d == 2 {
        '2'
    } else if d == 3 {
        '3'
    } else if d == 4 {
        '4'
    } else if d == 5 {
        '5'
    } else if d == 6 {
        '6'
    } else if d == 7 {
        '7'
    } else if d == 8 {
        '8'
    } else {
        '9'
    }
}

/// The decimal text of `n`, without leading zeros.
pub open spec fn decimal_of_nat(n: nat) -> Seq<char>
    decreases n,
{
    if n < 10 {
        seq![digit_char(n as int)]
    } else {
        decimal_of_nat(n / 10).push(digit_char((n % 10) as int))
    }
}

/// The decimal text of `n`: a `-` in front of a negative number, no sign
/// else, and no leading zeros.
pub open spec fn decimal_of(n: int) -> Seq<char> {
    if n < 0 {
        seq!['-'] + decimal_of_nat((-n) as nat)
    } else {
        decimal_of_nat(n as nat)
    }
}

/// The text that `digits` write when read from the last to the first.
pub open spec fn digits_text(digits: Seq<u8>) -> Seq<char> {
    Seq::new(digits.len(), |i: int| digit_char(digits[digits.len() - 1 - i] as int))
}

/// The text of one digit.
fn digit_str(d: u8) -> (s: &'static str)
    requires
        d < 10,
    ensures
        s@ == seq![digit_char(d as int)],
{
    proof {
        reveal_strlit("0");
        reveal_strlit("1");
        reveal_strlit("2");
        reveal_strlit("3");
        reveal_strlit("4");
        reveal_strlit("5");
        reveal_strlit("6");
        reveal_strlit("7");
        reveal_strlit("8");
        reveal_strlit("9");
    }
    let s = if d == 0 {
        "0"
    } else if d == 1 {
        "1"
    } else if d == 2 {
        "2"
    } else if d == 3 {
        "3"
    } else if d == 4 {
        "4"
    } else if d == 5 {
        "5"
    } else if d == 6 {
        "6"
    } else if d == 7 {
        "7"
    } else if d == 8 {
        "8"
    } else {
        "9"
    };
    assert(s@ =~= seq![digit_char(d as int)]);
    s
}

/// The decimal text of `n`.
pub fn decimal_text(n: i32) -> (text: String)
    ensures
        text@ == decimal_of(n as int),
{
    let negative = n < 0;
    let magnitude: u32 = if negative {
        (0 - (n as i64)) as u32
    } else {
        n as u32
    };
    let mut rest: u32 = magnitude;
    let mut digits: Vec<u8> = Vec::new();
    let mut more = true;
    assert(decimal_of_nat(magnitude as nat) =~= decimal_of_nat(rest as nat) + digits_text(
        digits@,
    ));
    while more
        invariant
            more ==> decimal_of_nat(magnitude as nat) == decimal_of_nat(rest as nat) + digits_text(
                digits@,
            ),
            !more ==> decimal_of_nat(magnitude as nat) == digits_text(digits@),
            forall|k: int| 0 <= k < digits.len() ==> digits[k] < 10,
        decreases (if more { 1 + rest as int } else { 0 }),
    {
        let ghost before = digits@;
        let d: u8 = (rest % 10) as u8;
        digits.push(d);
        assert(digits_text(digits@) =~= seq![digit_char(d as int)] + digits_text(before));
        if rest < 10 {
            more = false;
            assert(decimal_of_nat(magnitude as nat) =~= digits_text(digits@));
        } else {
            assert(decimal_of_nat(rest as nat) == decimal_of_nat((rest / 10) as nat).push(
                digit_char(d as int),
            ));
            rest = rest / 10;
            assert(decimal_of_nat(magnitude as nat) =~= decimal_of_nat(rest as nat) + digits_text(
                digits@,
            ));
        }
    }
    let mut text = String::new();
    if negative {
        text.append("-");
        proof {
            reveal_strlit("-");
            assert(text@ =~= seq!['-']);
        }
    }
    let ghost sign = text@;
    let ghost all = digits_text(digits@);
    let mut i: usize = digits.len();
    assert(text@ =~= sign + all.take(0));
    while i > 0
        invariant
            i <= digits.len(),
            all == digits_text(digits@),
            forall|k: int| 0 <= k < digits.len() ==> digits[k] < 10,
            text@ == sign + all.take(digits.len() - i),
        decreases i,
    {
        let ghost k = digits.len() - i;
        i -= 1;
        text.append(digit_str(digits[i]));
        assert(all[k] == digit_char(digits[i as int] as int));
        assert(text@ =~= sign + all.take(k + 1));
    }
    assert(all.take(digits.len() as int) =~= all);
    text
}

/// The servers that the first group named `name` lists.
pub open spec fn find_group(groups: Seq<ServerGroup>, name: Seq<char>) -> Option<Seq<i32>>
    decreases groups.len(),
{
    if groups.len() == 0 {
        None
    } else if groups[0].name@ == name {
        Some(groups[0].servers@)
    } else {
        find_group(groups.drop_first(), name)
    }
}

/// What is configured of the first server under the text `id`.
pub open spec fn find_server(servers: Seq<ServerRecord>, id: Seq<char>) -> Option<ServerInfo>
    decreases servers.len(),
{
    if servers.len() == 0 {
        None
    } else if servers[0].id@ == id {
        Some(servers[0].info)
    } else {
        find_server(servers.drop_first(), id)
    }
}

/// The address that the first host named `name` stands for.
pub open spec fn find_host(hosts: Seq<HostRecord>, name: Seq<char>) -> Option<Seq<char>>
    decreases hosts.len(),
{
    if hosts.len() == 0 {
        None
    } else if hosts[0].name@ == name {
        Some(hosts[0].address@)
    } else {
        find_host(hosts.drop_first(), name)
    }
}

/// The servers with the numbers `ids`, in order; or the first number under
/// whose text no server is configured.
pub open spec fn servers_of(servers: Seq<ServerRecord>, ids: Seq<i32>) -> Result<
    Seq<ServerInfo>,
    i32,
>
    decreases ids.len(),
{
    if ids.len() == 0 {
        Ok(Seq::empty())
    } else {
        match servers_of(servers, ids.drop_last()) {
            Err(id) => Err(id),
            Ok(found) => match find_server(servers, decimal_of(ids.last() as int)) {
                Some(info) => Ok(found.push(info)),
                None => Err(ids.last()),
            },
        }
    }
}

/// The host to serve for the server `info` at `address`.
pub open spec fn target_of(
    info: ServerInfo,
    address: Seq<char>,
    credential: Seq<char>,
) -> HostTargetView {
    HostTargetView {
        name: info.name@,
        address,
        username: info.username@,
        credential,
        output_dir: match info.output_dir {
            Some(dir) => Some(dir@),
            None => None,
        },
    }
}

/// The hosts to serve for `infos`, in order; or the first server whose host
/// is not configured.
pub open spec fn targets_of(
    hosts: Seq<HostRecord>,
    infos: Seq<ServerInfo>,
    credential: Seq<char>,
) -> Result<
    Seq<HostTargetView>,
    ConfigResolutionErrorView,
>
    decreases infos.len(),
{
    if infos.len() == 0 {
        Ok(Seq::empty())
    } else {
        match targets_of(hosts, infos.drop_last(), credential) {
            Err(e) => Err(e),
            Ok(targets) => match find_host(hosts, infos.last().host@) {
                Some(address) => Ok(targets.push(target_of(infos.last(), address, credential))),
                None => Err(
                    ConfigResolutionErrorView::HostNotFound {
                        host: infos.last().host@,
                        server: infos.last().name@,
                    },
                ),
            },
        }
    }
}

/// The hosts to serve for the group `group` of `config`, each signing in
/// with `credential`; or the first thing that is missing: the name of a
/// group, the group, a server in it, a server's record, a host's record.
pub open spec fn resolved(
    config: Config,
    group: Option<Seq<char>>,
    credential: Seq<char>,
) -> Result<
    Seq<HostTargetView>,
    ConfigResolutionErrorView,
> {
    match group {
        None => Err(ConfigResolutionErrorView::NoGroupSpecified),
        Some(name) => match find_group(config.server_groups@, name) {
            None => Err(ConfigResolutionErrorView::GroupNotFound),
            Some(ids) => if ids.len() == 0 {
                Err(ConfigResolutionErrorView::GroupEmpty)
            } else {
                match servers_of(config.servers@, ids) {
                    Err(id) => Err(ConfigResolutionErrorView::ServerNotFound { id }),
                    Ok(infos) => targets_of(config.hosts@, infos, credential),
                }
            },
        },
    }
}

/// The views of `targets`, in order.
pub open spec fn targets_view(targets: Seq<HostTarget>) -> Seq<HostTargetView> {
    Seq::new(targets.len(), |i: int| targets[i]@)
}

/// A number that is missing among the first servers of a group is missing
/// in the group.
pub proof fn lemma_missing_server_stays_missing(servers: Seq<ServerRecord>, ids: Seq<i32>, k: int)
    requires
        0 <= k <= ids.len(),
        servers_of(servers, ids.take(k)) is Err,
    ensures
        servers_of(servers, ids) == servers_of(servers, ids.take(k)),
    decreases ids.len() - k,
{
    if k == ids.len() {
        assert(ids.take(k) =~= ids);
    } else {
        assert(ids.take(k + 1).drop_last() =~= ids.take(k));
        lemma_missing_server_stays_missing(servers, ids, k + 1);
    }
}

/// A host that is missing for one of the first servers is missing for the
/// whole list.
pub proof fn lemma_missing_host_stays_missing(
    hosts: Seq<HostRecord>,
    infos: Seq<ServerInfo>,
    credential: Seq<char>,
    k: int,
)
    requires
        0 <= k <= infos.len(),
        targets_of(hosts, infos.take(k), credential) is Err,
    ensures
        targets_of(hosts, infos, credential) == targets_of(hosts, infos.take(k), credential),
    decreases infos.len() - k,
{
    if k == infos.len() {
        assert(infos.take(k) =~= infos);
    } else {
        assert(infos.take(k + 1).drop_last() =~= infos.take(k));
        lemma_missing_host_stays_missing(hosts, infos, credential, k + 1);
    }
}

impl Config {
    /// The servers that the group `name` lists.
    pub fn group(&self, name: &String) -> (r: Option<&Vec<i32>>)
        ensures
            match r {
                Some(ids) => find_group(self.server_groups@, name@) == Some(ids@),
                None => find_group(self.server_groups@, name@) is None,
            },
    {
        let mut i: usize = 0;
        assert(self.server_groups@.skip(0) =~= self.server_groups@);
        while i < self.server_groups.len()
            invariant
                i <= self.server_groups.len(),
                find_group(self.server_groups@, name@) == find_group(
                    self.server_groups@.skip(i as int),
                    name@,
                ),
            decreases self.server_groups.len() - i,
        {
            if self.server_groups[i].name == *name {
                return Some(&self.server_groups[i].servers);
            }
            assert(self.server_groups@.skip(i as int).drop_first() =~= self.server_groups@.skip(
                i + 1,
            ));
            i += 1;
        }
        None
    }

    /// What is configured of the server with the number `id`.
    pub fn server(&self, id: i32) -> (r: Option<&ServerInfo>)
        ensures
            match r {
                Some(info) => find_server(self.servers@, decimal_of(id as int)) == Some(*info),
                None => find_server(self.servers@, decimal_of(id as int)) is None,
            },
    {
        let key = decimal_text(id);
        let mut i: usize = 0;
        assert(self.servers@.skip(0) =~= self.servers@);
        while i < self.servers.len()
            invariant
                i <= self.servers.len(),
                key@ == decimal_of(id as int),
                find_server(self.servers@, key@) == find_server(
                    self.servers@.skip(i as int),
                    key@,
                ),
            decreases self.servers.len() - i,
        {
            if self.servers[i].id == key {
                return Some(&self.servers[i].info);
            }
            assert(self.servers@.skip(i as int).drop_first() =~= self.servers@.skip(i + 1));
            i += 1;
        }
        None
    }

    /// The address that the host name `name` stands for.
    pub fn host(&self, name: &String) -> (r: Option<&String>)
        ensures
            match r {
                Some(address) => find_host(self.hosts@, name@) == Some(address@),
                None => find_host(self.hosts@, name@) is None,
            },
    {
        let mut i: usize = 0;
        assert(self.hosts@.skip(0) =~= self.hosts@);
        while i < self.hosts.len()
            invariant
                i <= self.hosts.len(),
                find_host(self.hosts@, name@) == find_host(self.hosts@.skip(i as int), name@),
            decreases self.hosts.len() - i,
        {
            if self.hosts[i].name == *name {
                return Some(&self.hosts[i].address);
            }
            assert(self.hosts@.skip(i as int).drop_first() =~= self.hosts@.skip(i + 1));
            i += 1;
        }
        None
    }

    /// The hosts to serve for the group `group`, each signing in with
    /// `credential`.
    pub fn resolve(&self, group: &Option<String>, credential: &String) -> (r: Result<
        Vec<HostTarget>,
        ConfigResolutionError,
    >)
        ensures
            match r {
                Ok(targets) => resolved(*self, group_view(*group), credential@) == Ok::<
                    Seq<HostTargetView>,
                    ConfigResolutionErrorView,
                >(targets_view(targets@)),
                Err(e) => resolved(*self, group_view(*group), credential@) == Err::<
                    Seq<HostTargetView>,
                    ConfigResolutionErrorView,
                >(e@),
            },
    {
        let name = match group {
            None => {
                return Err(ConfigResolutionError::NoGroupSpecified);
            },
            Some(name) => name,
        };
        let ids = match self.group(name) {
            None => {
                return Err(ConfigResolutionError::GroupNotFound);
            },
            Some(ids) => ids,
        };
        if ids.len() == 0 {
            return Err(ConfigResolutionError::GroupEmpty);
        }
        let mut infos: Vec<&ServerInfo> = Vec::new();
        let mut i: usize = 0;
        assert(ids@.take(0) =~= Seq::<i32>::empty());
        assert(infos_of(infos@) =~= Seq::<ServerInfo>::empty());
        while i < ids.len()
            invariant
                i <= ids.len(),
                infos.len() == i,
                ids.len() > 0,
                group_view(*group) == Some(name@),
                find_group(self.server_groups@, name@) == Some(ids@),
                servers_of(self.servers@, ids@.take(i as int)) == Ok::<Seq<ServerInfo>, i32>(
                    infos_of(infos@),
                ),
            decreases ids.len() - i,
        {
            let ghost before = infos@;
            assert(ids@.take(i + 1).drop_last() =~= ids@.take(i as int));
            assert(ids@.take(i + 1).last() == ids[i as int]);
            match self.server(ids[i]) {
                None => {
                    proof {
                        lemma_missing_server_stays_missing(self.servers@, ids@, i + 1);
                    }
                    return Err(ConfigResolutionError::ServerNotFound { id: ids[i] });
                },
                Some(info) => {
                    infos.push(info);
                    assert(infos_of(infos@) =~= infos_of(before).push(*info));
                },
            }
            i += 1;
        }
        assert(ids@.take(ids.len() as int) =~= ids@);
        let ghost all = infos_of(infos@);
        let mut targets: Vec<HostTarget> = Vec::new();
        let mut k: usize = 0;
        assert(all.take(0) =~= Seq::<ServerInfo>::empty());
        assert(targets_view(targets@) =~= Seq::<HostTargetView>::empty());
        while k < infos.len()
            invariant
                k <= infos.len(),
                targets.len() == k,
                all == infos_of(infos@),
                ids.len() > 0,
                group_view(*group) == Some(name@),
                find_group(self.server_groups@, name@) == Some(ids@),
                servers_of(self.servers@, ids@) == Ok::<Seq<ServerInfo>, i32>(all),
                targets_of(self.hosts@, all.take(k as int), credential@) == Ok::<
                    Seq<HostTargetView>,
                    ConfigResolutionErrorView,
                >(targets_view(targets@)),
            decreases infos.len() - k,
        {
            let ghost before = targets@;
            let info = infos[k];
            assert(all.take(k + 1).drop_last() =~= all.take(k as int));
            assert(all.take(k + 1).last() == *info);
            match self.host(&info.host) {
                None => {
                    proof {
                        lemma_missing_host_stays_missing(self.hosts@, all, credential@, k + 1);
                    }
                    return Err(
                        ConfigResolutionError::HostNotFound {
                            host: info.host.clone(),
                            server: info.name.clone(),
                        },
                    );
                },
                Some(address) => {
                    let target = HostTarget {
                        name: info.name.clone(),
                        address: address.clone(),
                        username: info.username.clone(),
                        credential: credential.clone(),
                        output_dir: match &info.output_dir {
                            Some(dir) => Some(dir.clone()),
                            None => None,
                        },
                    };
                    assert(target@ == target_of(*info, address@, credential@));
                    targets.push(target);
                    assert(targets_view(targets@) =~= targets_view(before).push(target@));
                },
            }
            k += 1;
        }
        assert(all.take(infos.len() as int) =~= all);
        Ok(targets)
    }
}

/// The servers behind `infos`, in order.
pub open spec fn infos_of(infos: Seq<&ServerInfo>) -> Seq<ServerInfo> {
    Seq::new(infos.len(), |i: int| *infos[i])
}

/// The view of an optional group name.
pub open spec fn group_view(group: Option<String>) -> Option<Seq<char>> {
    match group {
        Some(name) => Some(name@),
        None => None,
    }
}

} // verus!
