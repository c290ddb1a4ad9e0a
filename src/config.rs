use vstd::prelude::*;

verus! {

/// How to bring up the connection of a discovered service. Every string but
/// the command, the names and the header and variable keys is a template.
#[derive(Clone, Debug, PartialEq, Eq)]
pub enum McpConfig {
    /// Spawn a process and talk to it over its standard input and output.
    Stdio {
        name: String,
        command: String,
        args: Vec<String>,
        /// Environment variables of the process: keys with value templates,
        /// each key once.
        envs: Vec<(String, String)>,
    },
    /// Open a server-sent-events session to a URL.
    Sse {
        name: String,
        url: String,
        /// Default headers of the HTTP client: names with value templates,
        /// each name once.
        headers: Option<Vec<(String, String)>>,
    },
}

/// Whether no key occurs twice among the pairs.
pub open spec fn distinct_keys(pairs: Seq<(String, String)>) -> bool {
    forall|i: int, j: int| 0 <= i < j < pairs.len() ==> pairs[i].0@ != pairs[j].0@
}

/// Whether each key of a list of pairs occurs once.
pub fn has_distinct_keys(pairs: &Vec<(String, String)>) -> (r: bool)
    ensures
        r == distinct_keys(pairs@),
{
    let mut j: usize = 0;
    while j < pairs.len()
        invariant
            j <= pairs@.len(),
            forall|a: int, b: int| 0 <= a < b < j ==> pairs@[a].0@ != pairs@[b].0@,
        decreases pairs@.len() - j,
    {
        let mut a: usize = 0;
        while a < j
            invariant
                j < pairs@.len(),
                a <= j,
                forall|c: int| 0 <= c < a ==> pairs@[c].0@ != pairs@[j as int].0@,
            decreases j - a,
        {
            if pairs[a].0 == pairs[j].0 {
                return false;
            }
            a += 1;
        }
        j += 1;
    }
    true
}

impl McpConfig {
    /// Environment variables, and headers, each have distinct keys.
    pub open spec fn wf(&self) -> bool {
        match self {
            McpConfig::Stdio { envs, .. } => distinct_keys(envs@),
            McpConfig::Sse { headers, .. } => headers matches Some(h) ==> distinct_keys(h@),
        }
    }

    /// Whether the specification is well formed: no environment variable or
    /// header is given twice.
    pub fn is_well_formed(&self) -> (r: bool)
        ensures
            r == self.wf(),
    {
        match self {
            McpConfig::Stdio { envs, .. } => has_distinct_keys(envs),
            McpConfig::Sse { headers, .. } => match headers {
                Some(h) => has_distinct_keys(h),
                None => true,
            },
        }
    }
}

/// Pairs a discovery service type with the launch specification of the
/// services of that type.
#[derive(Clone, Debug, PartialEq, Eq)]
pub struct ServiceMcpMapping {
    pub zeroconf_service: String,
    pub mcp: McpConfig,
}

/// The configuration: a list of service mappings.
#[derive(Clone, Debug, PartialEq, Eq)]
pub struct ZeroConfig {
    pub service_mappings: Vec<ServiceMcpMapping>,
}

/// The index of the mapping that governs a service type: the last one that
/// names it, as a later entry overrides an earlier one.
pub open spec fn governing_mapping(maps: Seq<ServiceMcpMapping>, service_type: Seq<char>) -> Option<int>
    decreases maps.len(),
{
    if maps.len() == 0 {
        None
    } else if maps.last().zeroconf_service@ == service_type {
        Some(maps.len() - 1)
    } else {
        governing_mapping(maps.drop_last(), service_type)
    }
}

/// The governing mapping, when there is one, names the type and lies in range;
/// there is none exactly when no mapping names the type.
pub proof fn lemma_governing_mapping(maps: Seq<ServiceMcpMapping>, service_type: Seq<char>)
    ensures
        governing_mapping(maps, service_type) matches Some(i) ==> 0 <= i < maps.len()
            && maps[i].zeroconf_service@ == service_type && forall|j: int|
            i < j < maps.len() ==> maps[j].zeroconf_service@ != service_type,
        governing_mapping(maps, service_type) is None <==> forall|j: int|
            0 <= j < maps.len() ==> maps[j].zeroconf_service@ != service_type,
    decreases maps.len(),
{
    if maps.len() > 0 {
        let rest = maps.drop_last();
        lemma_governing_mapping(rest, service_type);
        if maps.last().zeroconf_service@ != service_type {
            assert forall|j: int| 0 <= j < rest.len() implies rest[j] == maps[j] by {}
        }
    }
}

impl ZeroConfig {
    /// The index of the mapping that governs a service type, if any.
    pub fn mapping_index(&self, service_type: &String) -> (r: Option<usize>)
        ensures
            r matches Some(i) ==> Some(i as int) == governing_mapping(
                self.service_mappings@,
                service_type@,
            ),
            r is None ==> governing_mapping(self.service_mappings@, service_type@) is None,
    {
        let ghost maps = self.service_mappings@;
        let mut i: usize = self.service_mappings.len();
        assert(maps.subrange(0, i as int) =~= maps);
        while i > 0
            invariant
                i <= maps.len(),
                maps == self.service_mappings@,
                governing_mapping(maps, service_type@) == governing_mapping(
                    maps.subrange(0, i as int),
                    service_type@,
                ),
            decreases i,
        {
            let ghost prefix = maps.subrange(0, i as int);
            assert(prefix.drop_last() =~= maps.subrange(0, i - 1));
            if self.service_mappings[i - 1].zeroconf_service == *service_type {
                return Some(i - 1);
            }
            i -= 1;
        }
        assert(maps.subrange(0, 0) =~= Seq::<ServiceMcpMapping>::empty());
        None
    }

    /// The launch specification for a service type, if the configuration has
    /// one.
    pub fn mapping_for(&self, service_type: &String) -> (r: Option<&McpConfig>)
        ensures
            r is Some <==> governing_mapping(self.service_mappings@, service_type@) is Some,
            r matches Some(c) ==> *c == self.service_mappings@[governing_mapping(
                self.service_mappings@,
                service_type@,
            )->0].mcp,
    {
        proof {
            lemma_governing_mapping(self.service_mappings@, service_type@);
        }
        match self.mapping_index(service_type) {
            Some(i) => Some(&self.service_mappings[i].mcp),
            None => None,
        }
    }

    /// The distinct service types of the configuration, one browse each.
    pub fn service_types(&self) -> (r: Vec<String>)
        ensures
            forall|a: int, b: int| 0 <= a < b < r@.len() ==> r@[a]@ != r@[b]@,
            forall|a: int|
                0 <= a < r@.len() ==> names_type(self.service_mappings@, #[trigger] r@[a]@),
            forall|k: int|
                0 <= k < self.service_mappings@.len() ==> lists(
                    r@,
                    #[trigger] self.service_mappings@[k].zeroconf_service@,
                ),
    {
        let ghost maps = self.service_mappings@;
        let mut types: Vec<String> = Vec::new();
        let mut j: usize = 0;
        while j < self.service_mappings.len()
            invariant
                maps == self.service_mappings@,
                j <= maps.len(),
                forall|a: int, b: int| 0 <= a < b < types@.len() ==> types@[a]@ != types@[b]@,
                forall|a: int| 0 <= a < types@.len() ==> names_type(maps, #[trigger] types@[a]@),
                forall|k: int| 0 <= k < j ==> lists(types@, #[trigger] maps[k].zeroconf_service@),
            decreases maps.len() - j,
        {
            let t = &self.service_mappings[j].zeroconf_service;
            let mut seen = false;
            let mut a: usize = 0;
            while a < types.len()
                invariant
                    a <= types@.len(),
                    seen ==> lists(types@, t@),
                    !seen ==> forall|b: int| 0 <= b < a ==> types@[b]@ != t@,
                decreases types@.len() - a,
            {
                if types[a] == *t {
                    seen = true;
                }
                a += 1;
            }
            let ghost before = types@;
            if !seen {
                types.push(t.clone());
                assert(types@[before.len() as int]@ == t@);
            }
            assert forall|b: int| 0 <= b < before.len() implies types@[b] == before[b] by {}
            assert forall|s: Seq<char>| lists(before, s) implies lists(types@, s) by {
                let b = choose|b: int| 0 <= b < before.len() && before[b]@ == s;
                assert(types@[b] == before[b]);
            }
            assert(lists(types@, maps[j as int].zeroconf_service@));
            assert forall|b: int| 0 <= b < types@.len() implies names_type(maps, #[trigger] types@[b]@) by {
                if b < before.len() {
                    assert(types@[b] == before[b]);
                } else {
                    assert(maps[j as int].zeroconf_service@ == types@[b]@);
                }
            }
            j += 1;
        }
        types
    }
}

/// Whether some mapping names the service type.
pub open spec fn names_type(maps: Seq<ServiceMcpMapping>, service_type: Seq<char>) -> bool {
    exists|k: int| 0 <= k < maps.len() && maps[k].zeroconf_service@ == service_type
}

/// Whether the list holds the string.
pub open spec fn lists(v: Seq<String>, s: Seq<char>) -> bool {
    exists|a: int| 0 <= a < v.len() && v[a]@ == s
}

} // verus!
