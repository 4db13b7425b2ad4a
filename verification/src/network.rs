use vstd::prelude::*;

use crate::text::chars_of;
use crate::text::string_of_range;

verus! {

/// How a network is called in this project and in the project whose
/// canisters are imported.
#[derive(Debug)]
pub struct ImportNetworkMapping {
    pub network_name_in_this_project: String,
    pub network_name_in_project_being_imported: String,
}

/// A network mapping that cannot be read.
#[derive(Debug)]
pub enum NetworkMappingError {
    /// The mapping starts with `=`: the name in this project is empty.
    FirstNetworkNameEmpty(String),
    /// The mapping ends with `=`: the name in the imported project is empty.
    SecondNetworkNameEmpty(String),
}

/// The index of the first `c` in `s`, if `s` holds one.
pub open spec fn first_index_of(s: Seq<char>, c: char) -> Option<int>
    decreases s.len(),
{
    if s.len() == 0 {
        None
    } else if s[0] == c {
        Some(0)
    } else {
        match first_index_of(s.drop_first(), c) {
            Some(i) => Some(i + 1),
            None => None,
        }
    }
}

/// The two network names that the mapping `v` stands for, or `None` where
/// `v` is malformed: `a=b` maps `a` to `b` (split at the first `=`, both
/// sides nonempty), and a mapping without `=` maps a name to itself.
pub open spec fn mapping_names(v: Seq<char>) -> Option<(Seq<char>, Seq<char>)> {
    match first_index_of(v, '=') {
        None => Some((v, v)),
        Some(i) => if i == 0 || i == v.len() - 1 {
            None
        } else {
            Some((v.subrange(0, i), v.subrange(i + 1, v.len() as int)))
        },
    }
}

/// Whether the malformed mapping `v` has an empty first name (it starts
/// with `=`); otherwise its second name is empty.
pub open spec fn mapping_first_name_empty(v: Seq<char>) -> bool {
    first_index_of(v, '=') == Some(0int)
}

impl ImportNetworkMapping {
    /// The pair of names of the mapping.
    pub open spec fn names(&self) -> (Seq<char>, Seq<char>) {
        (self.network_name_in_this_project@, self.network_name_in_project_being_imported@)
    }
}

impl NetworkMappingError {
    /// The mapping text that was refused.
    pub open spec fn mapping(&self) -> Seq<char> {
        match self {
            NetworkMappingError::FirstNetworkNameEmpty(v) => v@,
            NetworkMappingError::SecondNetworkNameEmpty(v) => v@,
        }
    }

    /// The error that `get_network_mappings` reports for a malformed mapping.
    pub open spec fn describes(&self, v: Seq<char>) -> bool {
        &&& self.mapping() == v
        &&& (self is FirstNetworkNameEmpty <==> mapping_first_name_empty(v))
    }

    /// The message of the error.
    pub fn message(&self) -> (r: String)
        ensures
            r@ == (match self {
                NetworkMappingError::FirstNetworkNameEmpty(v) => "malformed network mapping '"@ + v@
                    + "': first network name is empty"@,
                NetworkMappingError::SecondNetworkNameEmpty(v) => "malformed network mapping '"@
                    + v@ + "': second network name is empty"@,
            }),
    {
        let mut r = "malformed network mapping '".to_owned();
        match self {
            NetworkMappingError::FirstNetworkNameEmpty(v) => {
                r.append(v.as_str());
                r.append("': first network name is empty");
            },
            NetworkMappingError::SecondNetworkNameEmpty(v) => {
                r.append(v.as_str());
                r.append("': second network name is empty");
            },
        }
        r
    }
}

proof fn lemma_first_index_of(s: Seq<char>, c: char, i: int)
    requires
        0 <= i <= s.len(),
        forall|k: int| 0 <= k < i ==> #[trigger] s[k] != c,
    ensures
        i < s.len() && s[i] == c ==> first_index_of(s, c) == Some(i),
        i == s.len() ==> first_index_of(s, c) is None,
    decreases i,
{
    if i > 0 {
        lemma_first_index_of(s.drop_first(), c, i - 1);
    }
}

/// Reads one network mapping.
pub fn parse_network_mapping(v: &String) -> (r: Result<ImportNetworkMapping, NetworkMappingError>)
    ensures
        match mapping_names(v@) {
            Some(names) => r matches Ok(m) && m.names() == names,
            None => r matches Err(e) && e.describes(v@),
        },
{
    let chars = chars_of(v.as_str());
    let n = chars.len();
    let mut i: usize = 0;
    while i < n && chars[i] != '='
        invariant
            i <= n == chars@.len(),
            chars@ == v@,
            forall|k: int| 0 <= k < i ==> #[trigger] chars@[k] != '=',
        decreases n - i,
    {
        i = i + 1;
    }
    proof {
        lemma_first_index_of(v@, '=', i as int);
    }
    if i == n {
        return Ok(
            ImportNetworkMapping {
                network_name_in_this_project: v.clone(),
                network_name_in_project_being_imported: v.clone(),
            },
        );
    }
    if i == 0 {
        Err(NetworkMappingError::FirstNetworkNameEmpty(v.clone()))
    } else if i == n - 1 {
        Err(NetworkMappingError::SecondNetworkNameEmpty(v.clone()))
    } else {
        Ok(
            ImportNetworkMapping {
                network_name_in_this_project: string_of_range(&chars, 0, i),
                network_name_in_project_being_imported: string_of_range(&chars, i + 1, n),
            },
        )
    }
}

/// Reads the network mappings given on the command line, each either a
/// network name used in both projects or `<name here>=<name in the imported
/// project>`. The first malformed mapping is reported.
pub fn get_network_mappings(input: &[String]) -> (r: Result<
    Vec<ImportNetworkMapping>,
    NetworkMappingError,
>)
    ensures
        match r {
            Ok(ms) => {
                &&& ms@.len() == input@.len()
                &&& forall|i: int|
                    0 <= i < input@.len() ==> mapping_names(#[trigger] input@[i]@) == Some(
                        ms@[i].names(),
                    )
            },
            Err(e) => exists|k: int|
                0 <= k < input@.len() && (forall|i: int|
                    0 <= i < k ==> #[trigger] mapping_names(input@[i]@) is Some) && mapping_names(
                    #[trigger] input@[k]@,
                ) is None && e.describes(input@[k]@),
        },
{
    let mut ms: Vec<ImportNetworkMapping> = Vec::new();
    let n = input.len();
    for k in 0..n
        invariant
            n == input@.len(),
            ms@.len() == k,
            forall|i: int|
                0 <= i < k ==> mapping_names(#[trigger] input@[i]@) == Some(ms@[i].names()),
    {
        match parse_network_mapping(&input[k]) {
            Ok(m) => ms.push(m),
            Err(e) => {
                assert(forall|i: int| 0 <= i < k ==> #[trigger] mapping_names(input@[i]@) is Some);
                return Err(e);
            },
        }
    }
    Ok(ms)
}

/// A network name used in both projects is mapped to itself.
pub proof fn lemma_mapping_of_name(name: Seq<char>)
    requires
        !name.contains('='),
    ensures
        mapping_names(name) == Some((name, name)),
{
    lemma_first_index_of(name, '=', name.len() as int);
}

/// `a=b`, where the name `a` holds no `=` and both names are nonempty, maps
/// `a` in this project to `b` in the imported project.
pub proof fn lemma_mapping_of_pair(a: Seq<char>, b: Seq<char>)
    requires
        a.len() > 0,
        b.len() > 0,
        !a.contains('='),
    ensures
        mapping_names(a + seq!['='] + b) == Some((a, b)),
{
    let v = a + seq!['='] + b;
    assert forall|k: int| 0 <= k < a.len() implies #[trigger] v[k] != '=' by {
        assert(v[k] == a[k]);
        if v[k] == '=' {
            assert(a.contains('='));
        }
    }
    lemma_first_index_of(v, '=', a.len() as int);
    assert(v.subrange(0, a.len() as int) =~= a);
    assert(v.subrange((a.len() + 1) as int, v.len() as int) =~= b);
}

/// The name in this project that a mapping gives holds no `=`.
pub proof fn lemma_mapping_first_name_has_no_equals(v: Seq<char>)
    ensures
        mapping_names(v) matches Some((a, b)) ==> !a.contains('=') && (v.contains('=') ==> (
        a.len() > 0 && b.len() > 0)),
{
    lemma_first_index_of_found(v, '=');
    if let Some(i) = first_index_of(v, '=') {
        if mapping_names(v) is Some {
            let a = v.subrange(0, i);
            assert forall|k: int| 0 <= k < a.len() implies #[trigger] a[k] != '=' by {
                assert(a[k] == v[k]);
            }
        }
    }
}

/// Writing the names of a mapping as `a=b` and reading that text again
/// gives the same names, where both names are nonempty.
pub proof fn lemma_mapping_rewrite_round_trip(v: Seq<char>)
    requires
        mapping_names(v) matches Some((a, b)) && a.len() > 0 && b.len() > 0,
    ensures
        match mapping_names(v) {
            Some((a, b)) => mapping_names(a + seq!['='] + b) == Some((a, b)),
            None => true,
        },
{
    lemma_mapping_first_name_has_no_equals(v);
    if let Some((a, b)) = mapping_names(v) {
        lemma_mapping_of_pair(a, b);
    }
}

/// A mapping is refused exactly where it starts with `=` or its only `=`
/// is its last character.
pub proof fn lemma_mapping_refused(v: Seq<char>)
    ensures
        mapping_names(v) is None <==> (v.len() > 0 && (v[0] == '=' || (v.last() == '=' && forall|
            k: int,
        | 0 <= k < v.len() - 1 ==> #[trigger] v[k] != '='))),
{
    if v.len() > 0 && v[0] == '=' {
        lemma_first_index_of(v, '=', 0);
    } else if v.len() > 0 && v.last() == '=' && forall|k: int|
        0 <= k < v.len() - 1 ==> #[trigger] v[k] != '=' {
        lemma_first_index_of(v, '=', v.len() - 1);
    } else {
        lemma_first_index_of_found(v, '=');
    }
}

proof fn lemma_first_index_of_found(s: Seq<char>, c: char)
    ensures
        match first_index_of(s, c) {
            Some(i) => 0 <= i < s.len() && s[i] == c && forall|k: int|
                0 <= k < i ==> #[trigger] s[k] != c,
            None => forall|k: int| 0 <= k < s.len() ==> #[trigger] s[k] != c,
        },
    decreases s.len(),
{
    if s.len() > 0 && s[0] != c {
        lemma_first_index_of_found(s.drop_first(), c);
        match first_index_of(s.drop_first(), c) {
            Some(i) => {
                assert forall|k: int| 0 <= k < i + 1 implies #[trigger] s[k] != c by {
                    if k > 0 {
                        assert(s[k] == s.drop_first()[k - 1]);
                    }
                }
            },
            None => {
                assert forall|k: int| 0 <= k < s.len() implies #[trigger] s[k] != c by {
                    if k > 0 {
                        assert(s[k] == s.drop_first()[k - 1]);
                    }
                }
            },
        }
    }
}

/// The network selection of the command line: `--network <name>`,
/// `--playground` or `--ic`.
#[derive(Debug)]
pub struct NetworkOpt {
    pub network: Option<String>,
    pub playground: bool,
    pub ic: bool,
}

impl NetworkOpt {
    /// The name of the selected network: `playground` for `--playground`,
    /// else `ic` for `--ic`, else the name given with `--network`, if any.
    pub fn to_network_name(&self) -> (r: Option<String>)
        ensures
            self.playground ==> (r matches Some(s) && s@ == "playground"@),
            !self.playground && self.ic ==> (r matches Some(s) && s@ == "ic"@),
            !self.playground && !self.ic ==> match self.network {
                Some(n) => r matches Some(s) && s@ == n@,
                None => r is None,
            },
    {
        if self.playground {
            Some("playground".to_owned())
        } else if self.ic {
            Some("ic".to_owned())
        } else {
            match &self.network {
                Some(n) => Some(n.clone()),
                None => None,
            }
        }
    }
}

} // verus!
