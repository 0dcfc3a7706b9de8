use vstd::prelude::*;

verus! {

/// The kind of machine a CI job ran on.
#[derive(Debug, Clone, Copy, PartialEq, Eq, Structural, Hash)]
pub enum HostClass {
    Ubuntu,
    Macos,
    Windows,
}

/// The label value of a host class.
pub open spec fn host_label(h: HostClass) -> Seq<char> {
    match h {
        HostClass::Ubuntu => seq!['u', 'b', 'u', 'n', 't', 'u'],
        HostClass::Macos => seq!['m', 'a', 'c', 'o', 's'],
        HostClass::Windows => seq!['w', 'i', 'n', 'd', 'o', 'w', 's'],
    }
}

impl HostClass {
    /// The label value under which series of this host class are published.
    pub fn label(&self) -> (r: String)
        ensures
            r@ == host_label(*self),
    {
        match self {
            HostClass::Ubuntu => {
                proof {
                    reveal_strlit("ubuntu");
                }
                String::from_str("ubuntu")
            },
            HostClass::Macos => {
                proof {
                    reveal_strlit("macos");
                }
                String::from_str("macos")
            },
            HostClass::Windows => {
                proof {
                    reveal_strlit("windows");
                }
                String::from_str("windows")
            },
        }
    }
}

/// An organisation is identified by its login.
pub type Organisation = String;

/// The character that separates owner and name in `owner/name`.
pub open spec fn is_sep(c: char) -> bool {
    c == '/'
}

/// Position of the first separator of `s`, or `s.len()` when there is none.
pub open spec fn first_sep(s: Seq<char>) -> int
    decreases s.len(),
{
    if s.len() == 0 {
        0
    } else if is_sep(s[0]) {
        0
    } else {
        1 + first_sep(s.subrange(1, s.len() as int))
    }
}

/// The text `owner/name`.
pub open spec fn repository_text(owner: Seq<char>, name: Seq<char>) -> Seq<char> {
    owner + seq!['/'] + name
}

/// What parsing `s` yields: owner and name around the first separator, or
/// nothing when `s` holds no separator.
pub open spec fn parsed(s: Seq<char>) -> Option<(Seq<char>, Seq<char>)> {
    if s.contains('/') {
        let k = first_sep(s);
        Some((s.subrange(0, k), s.subrange(k + 1, s.len() as int)))
    } else {
        None
    }
}

/// `first_sep` lies in `0..=len`, no separator stands before it, and one
/// stands at it unless it is the length.
pub proof fn lemma_first_sep_bounds(s: Seq<char>)
    ensures
        0 <= first_sep(s) <= s.len(),
        forall|j: int| 0 <= j < first_sep(s) ==> !is_sep(#[trigger] s[j]),
        first_sep(s) < s.len() ==> is_sep(s[first_sep(s)]),
    decreases s.len(),
{
    if s.len() > 0 && !is_sep(s[0]) {
        let t = s.subrange(1, s.len() as int);
        lemma_first_sep_bounds(t);
        assert forall|j: int| 0 <= j < first_sep(s) implies !is_sep(#[trigger] s[j]) by {
            if j > 0 {
                assert(s[j] == t[j - 1]);
            }
        }
    }
}

/// A position with no separator before it and one at it (or the end) is
/// the first separator.
pub proof fn lemma_first_sep_at(s: Seq<char>, i: int)
    requires
        0 <= i <= s.len(),
        forall|j: int| 0 <= j < i ==> !is_sep(#[trigger] s[j]),
        i < s.len() ==> is_sep(s[i]),
    ensures
        first_sep(s) == i,
    decreases i,
{
    if i > 0 {
        let t = s.subrange(1, s.len() as int);
        assert(!is_sep(s[0]));
        assert forall|j: int| 0 <= j < i - 1 implies !is_sep(#[trigger] t[j]) by {
            assert(t[j] == s[j + 1]);
        }
        if i - 1 < t.len() {
            assert(t[i - 1] == s[i]);
        }
        lemma_first_sep_at(t, i - 1);
    }
}

/// Error of parsing a repository identifier.
#[derive(Debug, Clone, Copy, PartialEq, Eq, Structural)]
pub enum ParseRepositoryError {
    /// The text holds no `/` between owner and name.
    MissingSeparator,
}

/// A repository, identified by its owner and its name.
#[derive(Debug, PartialEq, Eq, Hash)]
pub struct Repository {
    pub owner: Organisation,
    pub name: String,
}

impl Repository {
    /// The text form `owner/name` of this repository.
    pub open spec fn text(&self) -> Seq<char> {
        repository_text(self.owner@, self.name@)
    }

    /// Parses `owner/name`, splitting at the first `/`.
    pub fn parse(s: &str) -> (r: Result<Repository, ParseRepositoryError>)
        ensures
            r is Err <==> parsed(s@) is None,
            r is Err ==> r == Err::<Repository, _>(ParseRepositoryError::MissingSeparator),
            r matches Ok(repo) ==> parsed(s@) == Some((repo.owner@, repo.name@)),
    {
        let n = s.unicode_len();
        let mut i: usize = 0;
        while i < n
            invariant
                n == s@.len(),
                0 <= i <= n,
                forall|j: int| 0 <= j < i ==> !is_sep(#[trigger] s@[j]),
            decreases n - i,
        {
            if s.get_char(i) == '/' {
                proof {
                    lemma_first_sep_at(s@, i as int);
                    assert(s@.contains('/'));
                }
                let owner = s.substring_char(0, i);
                let name = s.substring_char(i + 1, n);
                return Ok(Repository { owner: String::from_str(owner), name: String::from_str(name) });
            }
            i = i + 1;
        }
        proof {
            if s@.contains('/') {
                let k = choose|k: int| 0 <= k < s@.len() && s@[k] == '/';
                assert(!is_sep(s@[k]));
            }
        }
        Err(ParseRepositoryError::MissingSeparator)
    }

    /// The text form `owner/name`.
    pub fn to_text(&self) -> (r: String)
        ensures
            r@ == self.text(),
    {
        let mut r = self.owner.clone();
        r.append("/");
        r.append(self.name.as_str());
        proof {
            reveal_strlit("/");
        }
        r
    }

    /// A copy of this repository.
    pub fn duplicate(&self) -> (r: Repository)
        ensures
            r == *self,
    {
        Repository { owner: self.owner.clone(), name: self.name.clone() }
    }

    /// Whether both name the same repository.
    pub fn same_as(&self, other: &Repository) -> (r: bool)
        ensures
            r == (self.owner@ == other.owner@ && self.name@ == other.name@),
    {
        self.owner == other.owner && self.name == other.name
    }
}

impl std::str::FromStr for Repository {
    type Err = ParseRepositoryError;

    fn from_str(s: &str) -> (r: Result<Repository, ParseRepositoryError>)
        ensures
            r is Err <==> parsed(s@) is None,
            r matches Ok(repo) ==> parsed(s@) == Some((repo.owner@, repo.name@)),
    {
        Repository::parse(s)
    }
}

/// Malformed identifiers are refused, and a well-formed one reads back as the
/// text it was parsed from: the owner and name around the first `/`,
/// joined by `/`, give the input again.
pub proof fn lemma_parse_round_trip(s: Seq<char>)
    ensures
        parsed(s) is None <==> !s.contains('/'),
        parsed(s) matches Some((owner, name)) ==> repository_text(owner, name) == s,
{
    if s.contains('/') {
        lemma_first_sep_bounds(s);
        let k = first_sep(s);
        if k == s.len() {
            let j = choose|j: int| 0 <= j < s.len() && s[j] == '/';
            assert(!is_sep(s[j]));
        }
        assert(repository_text(s.subrange(0, k), s.subrange(k + 1, s.len() as int)) =~= s);
    }
}

/// Text made of an owner without `/` and any name parses back into that
/// owner and name.
pub proof fn lemma_text_parses_back(owner: Seq<char>, name: Seq<char>)
    requires
        !owner.contains('/'),
    ensures
        parsed(repository_text(owner, name)) == Some((owner, name)),
{
    let s = repository_text(owner, name);
    let k = owner.len() as int;
    assert(s[k] == '/');
    assert forall|j: int| 0 <= j < k implies !is_sep(#[trigger] s[j]) by {
        assert(s[j] == owner[j]);
    }
    lemma_first_sep_at(s, k);
    assert(s.subrange(0, k) =~= owner);
    assert(s.subrange(k + 1, s.len() as int) =~= name);
}

/// A workflow of a repository: its numeric id and its name.
#[derive(Debug, PartialEq, Eq)]
pub struct Workflow {
    pub id: u64,
    pub name: String,
}

impl Workflow {
    /// A copy of this workflow.
    pub fn duplicate(&self) -> (r: Workflow)
        ensures
            r == *self,
    {
        Workflow { id: self.id, name: self.name.clone() }
    }
}

} // verus!
