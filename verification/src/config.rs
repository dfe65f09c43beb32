//! Service table and global settings, built from a list of variables.

use crate::text::{
    ascii_lowercase, chars_of, lower_string_of, parse_u16, parse_u64, parse_unsigned, same,
    starts_with_at, string_of,
};
use vstd::prelude::*;
use vstd::string::StringExecFns;

verus! {

/// Admissions per user that a service gets when nothing else is configured.
pub const DEFAULT_RUNS_PER_USER: u16 = 5;

/// Seconds after which an artifact directory may be cleaned when nothing
/// else is configured: ten days.
pub const DEFAULT_MAX_AGE_SECS: u64 = 864000;

/// Nanoseconds in a second.
pub const NANOS_PER_SEC: u128 = 1000000000;

/// One destination service.
#[derive(Debug)]
pub struct Service {
    pub name: String,
    pub upload_url: String,
    pub download_url: String,
    pub runs_per_user: u16,
}

/// A service as the contracts see it.
pub struct ServiceView {
    pub name: Seq<char>,
    pub upload_url: Seq<char>,
    pub download_url: Seq<char>,
    pub runs_per_user: u16,
}

impl View for Service {
    type V = ServiceView;

    open spec fn view(&self) -> ServiceView {
        ServiceView {
            name: self.name@,
            upload_url: self.upload_url@,
            download_url: self.download_url@,
            runs_per_user: self.runs_per_user,
        }
    }
}

impl Clone for Service {
    fn clone(&self) -> (r: Self)
        ensures
            r@ == self@,
    {
        Service {
            name: self.name.clone(),
            upload_url: self.upload_url.clone(),
            download_url: self.download_url.clone(),
            runs_per_user: self.runs_per_user,
        }
    }
}

/// The settings of one process. `max_age` is in nanoseconds.
#[derive(Debug)]
pub struct Config {
    pub services: Vec<Service>,
    pub db_path: String,
    pub data_path: String,
    pub max_age: u128,
}

/// The settings as the contracts see them.
pub struct ConfigView {
    pub services: Seq<ServiceView>,
    pub db_path: Seq<char>,
    pub data_path: Seq<char>,
    pub max_age: u128,
}

impl View for Config {
    type V = ConfigView;

    open spec fn view(&self) -> ConfigView {
        ConfigView {
            services: service_views(self.services@),
            db_path: self.db_path@,
            data_path: self.data_path@,
            max_age: self.max_age,
        }
    }
}

/// A table of services as the contracts see it.
pub open spec fn service_views(s: Seq<Service>) -> Seq<ServiceView> {
    Seq::new(s.len(), |i: int| s[i]@)
}

/// The position of the first service called `name`, or the table's length.
pub open spec fn position(services: Seq<ServiceView>, name: Seq<char>) -> int
    decreases services.len(),
{
    if services.len() == 0 {
        0
    } else if services[0].name == name {
        0
    } else {
        1 + position(services.skip(1), name)
    }
}

/// The first service called `name`.
pub open spec fn lookup(services: Seq<ServiceView>, name: Seq<char>) -> Option<ServiceView> {
    let i = position(services, name);
    if i < services.len() {
        Some(services[i])
    } else {
        None
    }
}

/// No two services share a name.
pub open spec fn names_unique(services: Seq<ServiceView>) -> bool {
    forall|i: int, j: int|
        0 <= i < j < services.len() ==> #[trigger] services[i].name != #[trigger] services[j].name
}

/// The position of a name lies within the table or at its end; the
/// service there has the name, and none before it has.
pub proof fn lemma_position(services: Seq<ServiceView>, name: Seq<char>)
    ensures
        0 <= position(services, name) <= services.len(),
        position(services, name) < services.len() ==> services[position(services, name)].name
            == name,
        forall|k: int| 0 <= k < position(services, name) ==> (#[trigger] services[k]).name != name,
    decreases services.len(),
{
    if services.len() > 0 && services[0].name != name {
        let rest = services.skip(1);
        lemma_position(rest, name);
        assert forall|k: int| 0 <= k < position(services, name) implies (
        #[trigger] services[k]).name != name by {
            if k > 0 {
                assert(services[k] == rest[k - 1]);
            }
        }
    }
}

/// The position is the first index whose service has the name.
pub proof fn lemma_position_is(services: Seq<ServiceView>, name: Seq<char>, i: int)
    requires
        0 <= i <= services.len(),
        forall|k: int| 0 <= k < i ==> (#[trigger] services[k]).name != name,
        i < services.len() ==> services[i].name == name,
    ensures
        position(services, name) == i,
{
    lemma_position(services, name);
}

impl Config {
    /// The first service called `name`, as the contracts see it.
    pub open spec fn service(&self, name: Seq<char>) -> Option<ServiceView> {
        lookup(self@.services, name)
    }

    /// Where the first service called `name` stands in the table.
    pub fn find(&self, name: &str) -> (r: Option<usize>)
        ensures
            r matches Some(i) ==> i < self.services.len() && position(self@.services, name@) == i,
            r is None ==> position(self@.services, name@) == self.services.len(),
            r is Some <==> self.service(name@) is Some,
    {
        let mut i: usize = 0;
        while i < self.services.len()
            invariant
                i <= self.services.len(),
                forall|k: int| 0 <= k < i ==> (#[trigger] self@.services[k]).name != name@,
            decreases self.services.len() - i,
        {
            if same(self.services[i].name.as_str(), name) {
                proof {
                    lemma_position_is(self@.services, name@, i as int);
                }
                return Some(i);
            }
            i += 1;
        }
        proof {
            lemma_position_is(self@.services, name@, i as int);
        }
        None
    }

    /// The address to which jobs of the service are uploaded.
    pub fn get_upload_url(&self, service_name: &str) -> (r: Option<&str>)
        ensures
            r matches Some(url) ==> self.service(service_name@) matches Some(s) && url@
                == s.upload_url,
            r is None ==> self.service(service_name@) is None,
    {
        match self.find(service_name) {
            Some(i) => Some(self.services[i].upload_url.as_str()),
            None => None,
        }
    }

    /// The address from which results of the service are fetched.
    pub fn get_download_url(&self, service_name: &str) -> (r: Option<&str>)
        ensures
            r matches Some(url) ==> self.service(service_name@) matches Some(s) && url@
                == s.download_url,
            r is None ==> self.service(service_name@) is None,
    {
        match self.find(service_name) {
            Some(i) => Some(self.services[i].download_url.as_str()),
            None => None,
        }
    }

    /// How many jobs of one user the service runs at a time.
    pub fn get_runs_per_user(&self, service_name: &str) -> (r: Option<u16>)
        ensures
            r matches Some(n) ==> self.service(service_name@) matches Some(s) && n
                == s.runs_per_user,
            r is None ==> self.service(service_name@) is None,
    {
        match self.find(service_name) {
            Some(i) => Some(self.services[i].runs_per_user),
            None => None,
        }
    }

    /// Whether a service of that name is configured.
    pub fn has_service(&self, service_name: &str) -> (r: bool)
        ensures
            r == self.service(service_name@) is Some,
    {
        self.find(service_name).is_some()
    }

    /// Puts `service` in the table, in place of the one that had its name
    /// if there was one, at the end if not.
    pub fn insert(&mut self, service: Service)
        ensures
            final(self)@.services == put(old(self)@.services, service@),
            final(self)@.db_path == old(self)@.db_path,
            final(self)@.data_path == old(self)@.data_path,
            final(self)@.max_age == old(self)@.max_age,
            final(self).service(service@.name) == Some(service@),
            names_unique(old(self)@.services) ==> names_unique(final(self)@.services),
    {
        proof {
            lemma_put_lookup(self@.services, service@, service@.name);
            if names_unique(self@.services) {
                lemma_put_unique(self@.services, service@);
            }
        }
        let found = self.find(service.name.as_str());
        let ghost before = self@.services;
        match found {
            Some(i) => {
                self.services.set(i, service);
            },
            None => {
                self.services.push(service);
            },
        }
        assert(self@.services =~= put(before, service@));
    }

    /// Reads one variable into the service table.
    fn read_variable(&mut self, key: &str, value: &str)
        ensures
            final(self)@.services == with_variable(old(self)@.services, key@, value@),
            final(self)@.db_path == old(self)@.db_path,
            final(self)@.data_path == old(self)@.data_path,
            final(self)@.max_age == old(self)@.max_age,
    {
        let prefix = chars_of("SERVICE_");
        let k = chars_of(key);
        if !starts_with_at(&k, 0, &prefix) {
            return ;
        }
        let j = find_char(&k, '_', prefix.len());
        if j >= k.len() {
            return ;
        }
        let name = lower_string_of(&k, prefix.len(), j);
        let setting = string_of(&k, j + 1, k.len());
        let ghost before = self@.services;
        proof {
            lemma_position(before, name@);
        }
        let mut service = match self.find(name.as_str()) {
            Some(i) => self.services[i].clone(),
            None => Service {
                name,
                upload_url: String::new(),
                download_url: String::new(),
                runs_per_user: DEFAULT_RUNS_PER_USER,
            },
        };
        let ghost current = service@;
        if same(setting.as_str(), "UPLOAD_URL") {
            service.upload_url = value.to_owned();
        } else if same(setting.as_str(), "DOWNLOAD_URL") {
            service.download_url = value.to_owned();
        } else if same(setting.as_str(), "RUNS_PER_USER") {
            service.runs_per_user = match parse_u16(value) {
                Some(n) => n,
                None => DEFAULT_RUNS_PER_USER,
            };
        }
        assert(service@ == with_setting(current, setting@, value@));
        self.insert(service);
    }

    /// The configuration that `vars`, the variables of the process as pairs
    /// of name and value, describe for the working directory `cwd`.
    pub fn new(vars: &Vec<(String, String)>, cwd: &str) -> (r: Result<Config, ConfigError>)
        ensures
            r matches Ok(c) ==> config_of(variable_views(vars@), cwd@) == Some(c@) && names_unique(
                c@.services,
            ),
            r matches Err(e) ==> e == ConfigError::InvalidMaxAge && config_of(
                variable_views(vars@),
                cwd@,
            ) is None,
    {
        let ghost all = variable_views(vars@);
        let max_age: u128 = match value_of(vars, "MAX_AGE") {
            None => (DEFAULT_MAX_AGE_SECS as u128) * NANOS_PER_SEC,
            Some(text) => match parse_u64(text, u64::MAX) {
                Some(secs) => (secs as u128) * NANOS_PER_SEC,
                None => {
                    return Err(ConfigError::InvalidMaxAge);
                },
            },
        };
        let db_path = match value_of(vars, "DB_PATH") {
            Some(p) => p.to_owned(),
            None => cwd.to_owned().concat("/db.sqlite"),
        };
        let data_path = match value_of(vars, "DATA_PATH") {
            Some(p) => p.to_owned(),
            None => cwd.to_owned().concat("/data"),
        };
        let mut config = Config { services: Vec::new(), db_path, data_path, max_age };
        assert(config@.services =~= services_of(all.take(0)));
        let mut i: usize = 0;
        while i < vars.len()
            invariant
                i <= vars.len(),
                all == variable_views(vars@),
                config@.services == services_of(all.take(i as int)),
                config@.db_path == db_path@,
                config@.data_path == data_path@,
                config@.max_age == max_age,
            decreases vars.len() - i,
        {
            config.read_variable(vars[i].0.as_str(), vars[i].1.as_str());
            proof {
                let next = all.take(i + 1);
                assert(next.drop_last() =~= all.take(i as int));
                assert(next.last() == (vars[i as int].0@, vars[i as int].1@));
            }
            i += 1;
        }
        proof {
            assert(all.take(i as int) =~= all);
            lemma_services_of_unique(all);
        }
        Ok(config)
    }
}

/// The table with `service` in place of the first one of its name, or at
/// the end where none has it.
pub open spec fn put(services: Seq<ServiceView>, service: ServiceView) -> Seq<ServiceView> {
    let i = position(services, service.name);
    if i < services.len() {
        services.update(i, service)
    } else {
        services.push(service)
    }
}

/// After `put`, the name leads to the new service and every other name to
/// what it led to before.
pub proof fn lemma_put_lookup(services: Seq<ServiceView>, service: ServiceView, name: Seq<char>)
    ensures
        lookup(put(services, service), name) == if name == service.name {
            Some(service)
        } else {
            lookup(services, name)
        },
{
    let after = put(services, service);
    let i = position(services, service.name);
    lemma_position(services, service.name);
    lemma_position(services, name);
    if name == service.name {
        lemma_position_is(after, name, i);
    } else {
        let j = position(services, name);
        lemma_position_is(after, name, if j < services.len() {
            j
        } else {
            after.len() as int
        });
    }
}

/// `put` keeps names unique.
pub proof fn lemma_put_unique(services: Seq<ServiceView>, service: ServiceView)
    requires
        names_unique(services),
    ensures
        names_unique(put(services, service)),
{
    lemma_position(services, service.name);
    let after = put(services, service);
    let i = position(services, service.name);
    assert forall|a: int, b: int| 0 <= a < b < after.len() implies #[trigger] after[a].name
        != #[trigger] after[b].name by {
        if i < services.len() {
            assert(after[a].name == services[a].name);
            assert(after[b].name == services[b].name);
        } else {
            if b < services.len() {
                assert(after[a].name == services[a].name);
                assert(after[b].name == services[b].name);
            } else {
                assert(after[a] == services[a]);
            }
        }
    }
}

/// Why a list of variables gives no configuration.
#[derive(Debug, Clone, Copy, PartialEq, Eq, Structural)]
pub enum ConfigError {
    /// `MAX_AGE` is set and is no number of seconds.
    InvalidMaxAge,
}

/// The first index at or after `from` at which `s` holds `c`, or the length
/// of `s`.
pub open spec fn first_index(s: Seq<char>, c: char, from: int) -> int
    decreases s.len() - from,
{
    if from >= s.len() {
        s.len() as int
    } else if s[from] == c {
        from
    } else {
        first_index(s, c, from + 1)
    }
}

/// The service and the setting that a variable's name speaks of:
/// `SERVICE_<NAME>_<SETTING>`, where `<NAME>` holds no underscore and is
/// folded to lower case.
pub open spec fn service_variable(key: Seq<char>) -> Option<(Seq<char>, Seq<char>)> {
    let p = "SERVICE_"@;
    let j = first_index(key, '_', p.len() as int);
    if p.len() <= key.len() && key.subrange(0, p.len() as int) == p && j < key.len() {
        Some((ascii_lowercase(key.subrange(p.len() as int, j)), key.subrange(j + 1, key.len() as int)))
    } else {
        None
    }
}

/// A service of which nothing but the name is known yet.
pub open spec fn blank_service(name: Seq<char>) -> ServiceView {
    ServiceView {
        name,
        upload_url: Seq::empty(),
        download_url: Seq::empty(),
        runs_per_user: DEFAULT_RUNS_PER_USER,
    }
}

/// The service after one of its settings is given a value. A run count
/// that is no sixteen-bit number counts as the default; an unknown setting
/// changes nothing.
pub open spec fn with_setting(s: ServiceView, setting: Seq<char>, value: Seq<char>) -> ServiceView {
    if setting == "UPLOAD_URL"@ {
        ServiceView { upload_url: value, ..s }
    } else if setting == "DOWNLOAD_URL"@ {
        ServiceView { download_url: value, ..s }
    } else if setting == "RUNS_PER_USER"@ {
        ServiceView {
            runs_per_user: match parse_unsigned(value, u16::MAX as int) {
                Some(n) => n as u16,
                None => DEFAULT_RUNS_PER_USER,
            },
            ..s
        }
    } else {
        s
    }
}

/// The table after one variable is read.
pub open spec fn with_variable(services: Seq<ServiceView>, key: Seq<char>, value: Seq<char>) -> Seq<
    ServiceView,
> {
    match service_variable(key) {
        None => services,
        Some((name, setting)) => {
            let current = match lookup(services, name) {
                Some(s) => s,
                None => blank_service(name),
            };
            put(services, with_setting(current, setting, value))
        },
    }
}

/// The table that a list of variables describes, read in order.
pub open spec fn services_of(vars: Seq<(Seq<char>, Seq<char>)>) -> Seq<ServiceView>
    decreases vars.len(),
{
    if vars.len() == 0 {
        Seq::empty()
    } else {
        with_variable(services_of(vars.drop_last()), vars.last().0, vars.last().1)
    }
}

/// The value of the first variable called `key`.
pub open spec fn first_value(vars: Seq<(Seq<char>, Seq<char>)>, key: Seq<char>) -> Option<
    Seq<char>,
>
    decreases vars.len(),
{
    if vars.len() == 0 {
        None
    } else if vars[0].0 == key {
        Some(vars[0].1)
    } else {
        first_value(vars.skip(1), key)
    }
}

/// A list of variables as pairs of texts.
pub open spec fn variable_views(vars: Seq<(String, String)>) -> Seq<(Seq<char>, Seq<char>)> {
    Seq::new(vars.len(), |i: int| (vars[i].0@, vars[i].1@))
}

/// The age limit in nanoseconds: that of `MAX_AGE` seconds, or of the
/// default where the variable is not set; none where it is no number.
pub open spec fn max_age_of(vars: Seq<(Seq<char>, Seq<char>)>) -> Option<u128> {
    match first_value(vars, "MAX_AGE"@) {
        None => Some((DEFAULT_MAX_AGE_SECS * NANOS_PER_SEC) as u128),
        Some(text) => match parse_unsigned(text, u64::MAX as int) {
            Some(secs) => Some((secs * NANOS_PER_SEC) as u128),
            None => None,
        },
    }
}

/// The configuration that the variables `vars` describe for a process
/// working in the directory `cwd`.
pub open spec fn config_of(vars: Seq<(Seq<char>, Seq<char>)>, cwd: Seq<char>) -> Option<
    ConfigView,
> {
    match max_age_of(vars) {
        None => None,
        Some(max_age) => Some(
            ConfigView {
                services: services_of(vars),
                db_path: match first_value(vars, "DB_PATH"@) {
                    Some(p) => p,
                    None => cwd + "/db.sqlite"@,
                },
                data_path: match first_value(vars, "DATA_PATH"@) {
                    Some(p) => p,
                    None => cwd + "/data"@,
                },
                max_age,
            },
        ),
    }
}

/// The first variable called `key`.
fn value_of<'a>(vars: &'a Vec<(String, String)>, key: &str) -> (r: Option<&'a str>)
    ensures
        r matches Some(v) ==> first_value(variable_views(vars@), key@) == Some(v@),
        r is None ==> first_value(variable_views(vars@), key@) is None,
{
    let ghost all = variable_views(vars@);
    let mut i: usize = 0;
    assert(all.skip(0) =~= all);
    while i < vars.len()
        invariant
            i <= vars.len(),
            all == variable_views(vars@),
            first_value(all, key@) == first_value(all.skip(i as int), key@),
        decreases vars.len() - i,
    {
        if same(vars[i].0.as_str(), key) {
            return Some(vars[i].1.as_str());
        }
        assert(all.skip(i as int).skip(1) =~= all.skip(i + 1));
        i += 1;
    }
    None
}

/// The first index at or after `from` at which `v` holds `c`.
fn find_char(v: &Vec<char>, c: char, from: usize) -> (r: usize)
    requires
        from <= v.len(),
    ensures
        r == first_index(v@, c, from as int),
        from <= r <= v.len(),
    decreases v.len() - from,
{
    if from >= v.len() {
        v.len()
    } else if v[from] == c {
        from
    } else {
        find_char(v, c, from + 1)
    }
}

proof fn lemma_lookup_name(services: Seq<ServiceView>, name: Seq<char>)
    ensures
        lookup(services, name) matches Some(s) ==> s.name == name,
{
    lemma_position(services, name);
}

/// In the table that a list of variables describes no two services share
/// a name.
pub proof fn lemma_services_of_unique(vars: Seq<(Seq<char>, Seq<char>)>)
    ensures
        names_unique(services_of(vars)),
    decreases vars.len(),
{
    if vars.len() > 0 {
        let before = services_of(vars.drop_last());
        lemma_services_of_unique(vars.drop_last());
        match service_variable(vars.last().0) {
            None => {},
            Some((name, setting)) => {
                lemma_lookup_name(before, name);
                let current = match lookup(before, name) {
                    Some(s) => s,
                    None => blank_service(name),
                };
                lemma_put_unique(before, with_setting(current, setting, vars.last().1));
            },
        }
    }
}

} // verus!
