//! What a node says of itself to its peers, and which of them it goes on talking to.

use super::release::{
    dotted, later, parse_version, parsed_version, plain, reaches, version_at_least, version_parts,
    VersionParts,
};
use semver::Version;
use vstd::prelude::*;
use vstd::string::*;

verus! {

/// The oldest release of a bootstrap node that is still supported.
pub const MINIMUM_SUPPORTED_BOOTSTRAP_VERSION: &'static str = "0.1.1";

/// The oldest release of a light client that is still supported.
pub const MINIMUM_SUPPORTED_LIGHT_CLIENT_VERSION: &'static str = "1.9.2";

/// The protocol under which nodes identify themselves.
pub const IDENTITY_PROTOCOL: &'static str = "/avail/light/1.0.0";

pub const IDENTITY_AGENT_BASE: &'static str = "avail-light-client";

pub const IDENTITY_AGENT_ROLE: &'static str = "light-client";

pub const IDENTITY_AGENT_CLIENT_TYPE: &'static str = "rust-client";

/// The role of a bootstrap node.
pub const BOOTSTRAP_ROLE: &'static str = "bootstrap";

/// What is said of a text that is no agent version.
pub const PARSE_FAILURE: &'static str = "Failed to parse agent version";

/// The agent version of a node: four fields, written with slashes between them.
#[derive(Debug)]
pub struct AgentVersion {
    pub base_version: String,
    pub role: String,
    pub client_type: String,
    pub release_version: String,
}

impl Clone for AgentVersion {
    fn clone(&self) -> (agent: Self)
        ensures
            agent == *self,
    {
        AgentVersion {
            base_version: self.base_version.clone(),
            role: self.role.clone(),
            client_type: self.client_type.clone(),
            release_version: self.release_version.clone(),
        }
    }
}

/// `a`, a slash, `b`.
pub open spec fn slash(a: Seq<char>, b: Seq<char>) -> Seq<char> {
    a.push('/') + b
}

/// The number of slashes in a text.
pub open spec fn slashes(text: Seq<char>) -> nat
    decreases text.len(),
{
    if text.len() == 0 {
        0
    } else {
        slashes(text.drop_last()) + if text.last() == '/' {
            1nat
        } else {
            0nat
        }
    }
}

/// The text of four fields in the order in which they are written.
pub open spec fn agent_text(
    base_version: Seq<char>,
    role: Seq<char>,
    release_version: Seq<char>,
    client_type: Seq<char>,
) -> Seq<char> {
    slash(slash(slash(base_version, role), release_version), client_type)
}

impl AgentVersion {
    /// The text of an agent version.
    pub open spec fn text(&self) -> Seq<char> {
        agent_text(self.base_version@, self.role@, self.release_version@, self.client_type@)
    }

    /// Whether no field has a slash in it.
    pub open spec fn slash_free(&self) -> bool {
        &&& !self.base_version@.contains('/')
        &&& !self.role@.contains('/')
        &&& !self.release_version@.contains('/')
        &&& !self.client_type@.contains('/')
    }

    /// The agent version of this client at the release `version`.
    pub fn new(version: &str) -> (agent: Self)
        ensures
            agent.base_version@ == IDENTITY_AGENT_BASE@,
            agent.role@ == IDENTITY_AGENT_ROLE@,
            agent.release_version@ == version@,
            agent.client_type@ == IDENTITY_AGENT_CLIENT_TYPE@,
    {
        AgentVersion {
            base_version: IDENTITY_AGENT_BASE.to_owned(),
            role: IDENTITY_AGENT_ROLE.to_owned(),
            release_version: version.to_owned(),
            client_type: IDENTITY_AGENT_CLIENT_TYPE.to_owned(),
        }
    }

    /// The agent version as a text: base version, role, release version and client type, with
    /// slashes between them.
    pub fn to_string(&self) -> (text: String)
        ensures
            text@ == self.text(),
    {
        proof {
            reveal_strlit("/");
        }
        let mut text = self.base_version.clone();
        text.append("/");
        text.append(self.role.as_str());
        text.append("/");
        text.append(self.release_version.as_str());
        text.append("/");
        text.append(self.client_type.as_str());
        assert(text@ =~= self.text());
        text
    }

    /// Reads an agent version from its text, which has exactly three slashes.
    pub fn from_str(s: &str) -> (agent: Result<Self, String>)
        ensures
            match agent {
                Ok(agent) => slashes(s@) == 3 && agent.slash_free() && agent.text() == s@,
                Err(message) => slashes(s@) != 3 && message@ == PARSE_FAILURE@,
            },
    {
        let cuts = slash_positions(s);
        if cuts.len() != 3 {
            return Err(PARSE_FAILURE.to_owned());
        }
        let (i, j, k) = (cuts[0], cuts[1], cuts[2]);
        let len = s.unicode_len();
        let agent = AgentVersion {
            base_version: s.substring_char(0, i).to_owned(),
            role: s.substring_char(i + 1, j).to_owned(),
            release_version: s.substring_char(j + 1, k).to_owned(),
            client_type: s.substring_char(k + 1, len).to_owned(),
        };
        assert(agent.text() =~= s@);
        Ok(agent)
    }

    /// Whether the node is supported: its release version is one, and comes up to the minimum for
    /// its role.
    pub fn is_supported(&self) -> (supported: bool)
        ensures
            supported == match parsed_version(self.release_version@) {
                Some(version) => reaches(version, minimum_version(self.role@)),
                None => false,
            },
            forall|major: u64, minor: u64, patch: u64|
                self.release_version@ == #[trigger] dotted(major, minor, patch) ==> supported
                    == !later(minimum_version(self.role@), plain(major, minor, patch)),
    {
        let release = parse_version(self.release_version.as_str());
        supports(self.role.as_str(), release)
    }
}

/// The oldest release that is supported of a node with the role `role`.
pub open spec fn minimum_version(role: Seq<char>) -> VersionParts {
    if role == BOOTSTRAP_ROLE@ {
        plain(0, 1, 1)
    } else {
        plain(1, 9, 2)
    }
}

/// Whether a node with the role `role` is supported whose release version was read as `release`.
pub fn supports(role: &str, release: Result<Version, semver::Error>) -> (supported: bool)
    ensures
        supported == match release {
            Ok(version) => reaches(version_parts(version), minimum_version(role@)),
            Err(_) => false,
        },
{
    let bootstrap = role.to_owned() == BOOTSTRAP_ROLE.to_owned();
    let minimum = if bootstrap {
        MINIMUM_SUPPORTED_BOOTSTRAP_VERSION
    } else {
        MINIMUM_SUPPORTED_LIGHT_CLIENT_VERSION
    };
    proof {
        lemma_minimum_texts();
    }
    match release {
        Ok(release_version) => match parse_version(minimum) {
            Ok(min_version) => version_at_least(&release_version, &min_version),
            Err(_) => false,
        },
        Err(_) => false,
    }
}

/// The two minimum versions are plain releases.
proof fn lemma_minimum_texts()
    ensures
        MINIMUM_SUPPORTED_BOOTSTRAP_VERSION@ == dotted(0, 1, 1),
        MINIMUM_SUPPORTED_LIGHT_CLIENT_VERSION@ == dotted(1, 9, 2),
{
    reveal_strlit("0.1.1");
    reveal_strlit("1.9.2");
    assert(MINIMUM_SUPPORTED_BOOTSTRAP_VERSION@ =~= dotted(0, 1, 1));
    assert(MINIMUM_SUPPORTED_LIGHT_CLIENT_VERSION@ =~= dotted(1, 9, 2));
}

/// The positions of the slashes of `s`, in increasing order.
fn slash_positions(s: &str) -> (cuts: Vec<usize>)
    ensures
        cuts@.len() == slashes(s@),
        forall|a: int, b: int| 0 <= a < b < cuts@.len() ==> cuts@[a] < cuts@[b],
        forall|a: int| 0 <= a < cuts@.len() ==> #[trigger] cuts@[a] < s@.len() && s@[cuts@[a] as int]
            == '/',
        forall|p: int| 0 <= p < s@.len() && s@[p] == '/' ==> exists|a: int|
            0 <= a < cuts@.len() && #[trigger] cuts@[a] == p,
{
    let len = s.unicode_len();
    let mut cuts: Vec<usize> = Vec::new();
    let mut p: usize = 0;
    for c in it: s.chars()
        invariant
            it.seq() == s@,
            p == it.index(),
            len == s@.len(),
            cuts@.len() == slashes(s@.take(p as int)),
            forall|a: int, b: int| 0 <= a < b < cuts@.len() ==> cuts@[a] < cuts@[b],
            forall|a: int|
                0 <= a < cuts@.len() ==> #[trigger] cuts@[a] < p && s@[cuts@[a] as int] == '/',
            forall|q: int|
                0 <= q < p && s@[q] == '/' ==> exists|a: int|
                    0 <= a < cuts@.len() && #[trigger] cuts@[a] == q,
    {
        let ghost before = cuts@;
        assert(s@.take(p + 1).drop_last() =~= s@.take(p as int));
        if c == '/' {
            cuts.push(p);
        }
        assert forall|q: int| 0 <= q < p + 1 && s@[q] == '/' implies exists|a: int|
            0 <= a < cuts@.len() && #[trigger] cuts@[a] == q by {
            if q < p {
                let a = choose|a: int| 0 <= a < before.len() && #[trigger] before[a] == q;
                assert(cuts@[a] == q);
            } else {
                assert(cuts@[cuts@.len() - 1] == q);
            }
        }
        p = p + 1;
    }
    assert(s@.take(len as int) =~= s@);
    cuts
}

/// Counting slashes adds up over the parts of a text.
proof fn lemma_slashes_add(a: Seq<char>, b: Seq<char>)
    ensures
        slashes(a + b) == slashes(a) + slashes(b),
    decreases b.len(),
{
    if b.len() == 0 {
        assert(a + b =~= a);
    } else {
        assert((a + b).drop_last() =~= a + b.drop_last());
        lemma_slashes_add(a, b.drop_last());
    }
}

/// A text has no slash exactly if it counts none.
proof fn lemma_slashes_none(text: Seq<char>)
    ensures
        slashes(text) == 0 <==> !text.contains('/'),
    decreases text.len(),
{
    if text.len() > 0 {
        let rest = text.drop_last();
        lemma_slashes_none(rest);
        if rest.contains('/') {
            assert(text[rest.index_of('/')] == '/');
        }
        if text.contains('/') {
            let i = text.index_of('/');
            assert(i == rest.len() || rest[i] == '/');
        }
        if text.last() == '/' {
            assert(text[text.len() - 1] == '/');
        }
    }
}

proof fn lemma_slashes_of_slash(a: Seq<char>, b: Seq<char>)
    ensures
        slashes(slash(a, b)) == slashes(a) + 1 + slashes(b),
{
    lemma_slashes_add(a.push('/'), b);
    assert(a.push('/').drop_last() =~= a);
}

/// The part behind the last slash of two equal texts is equal, and so is what stands before it.
proof fn lemma_last_slash(a: Seq<char>, b: Seq<char>, c: Seq<char>, d: Seq<char>)
    requires
        slash(a, b) == slash(c, d),
        !b.contains('/'),
        !d.contains('/'),
    ensures
        a == c,
        b == d,
{
    let s = slash(a, b);
    assert(s.len() == a.len() + 1 + b.len());
    assert(s.len() == c.len() + 1 + d.len());
    assert(s[a.len() as int] == '/');
    assert(slash(c, d)[c.len() as int] == '/');
    if a.len() < c.len() {
        assert(b[c.len() - a.len() - 1] == s[c.len() as int]);
        assert(b.contains('/'));
    }
    if c.len() < a.len() {
        assert(d[a.len() - c.len() - 1] == slash(c, d)[a.len() as int]);
        assert(d.contains('/'));
    }
    assert(a =~= s.take(a.len() as int));
    assert(c =~= slash(c, d).take(c.len() as int));
    assert(b =~= s.skip((a.len() + 1) as int));
    assert(d =~= slash(c, d).skip((c.len() + 1) as int));
}

/// The text of an agent version can be read exactly if no field has a slash in it.
pub proof fn law_readable_if_slash_free(agent: AgentVersion)
    ensures
        slashes(agent.text()) == 3 <==> agent.slash_free(),
{
    let a = agent.base_version@;
    let b = agent.role@;
    let c = agent.release_version@;
    let d = agent.client_type@;
    lemma_slashes_of_slash(a, b);
    lemma_slashes_of_slash(slash(a, b), c);
    lemma_slashes_of_slash(slash(slash(a, b), c), d);
    lemma_slashes_none(a);
    lemma_slashes_none(b);
    lemma_slashes_none(c);
    lemma_slashes_none(d);
}

/// What is read from the text of an agent version is that agent version, field by field.
pub proof fn law_text_is_read_back(written: AgentVersion, read: AgentVersion)
    requires
        written.slash_free(),
        read.slash_free(),
        read.text() == written.text(),
    ensures
        read.base_version@ == written.base_version@,
        read.role@ == written.role@,
        read.release_version@ == written.release_version@,
        read.client_type@ == written.client_type@,
{
    let w = slash(written.base_version@, written.role@);
    let r = slash(read.base_version@, read.role@);
    lemma_last_slash(
        slash(w, written.release_version@),
        written.client_type@,
        slash(r, read.release_version@),
        read.client_type@,
    );
    lemma_last_slash(w, written.release_version@, r, read.release_version@);
    lemma_last_slash(written.base_version@, written.role@, read.base_version@, read.role@);
}

/// What this client says of itself can be read exactly if its release version has no slash in it,
/// and is held to the minimum version of a light client.
pub proof fn law_own_agent_is_readable(agent: AgentVersion, version: Seq<char>)
    requires
        agent.base_version@ == IDENTITY_AGENT_BASE@,
        agent.role@ == IDENTITY_AGENT_ROLE@,
        agent.release_version@ == version,
        agent.client_type@ == IDENTITY_AGENT_CLIENT_TYPE@,
    ensures
        slashes(agent.text()) == 3 <==> !version.contains('/'),
        minimum_version(agent.role@) == plain(1, 9, 2),
{
    reveal_strlit("avail-light-client");
    reveal_strlit("light-client");
    reveal_strlit("rust-client");
    reveal_strlit("bootstrap");
    law_readable_if_slash_free(agent);
    assert(agent.role@.len() != BOOTSTRAP_ROLE@.len());
}

/// Support does not end with a later release: what comes after a supported version is supported.
pub proof fn law_later_versions_are_supported(
    role: Seq<char>,
    version: VersionParts,
    later_version: VersionParts,
)
    requires
        reaches(version, minimum_version(role)),
        later(later_version, version),
    ensures
        reaches(later_version, minimum_version(role)),
{
}

/// The minimum version itself is supported, and a pre-release of it is not.
pub proof fn law_minimum_version_is_supported(role: Seq<char>, pre: Seq<char>, build: Seq<char>)
    ensures
        reaches(
            VersionParts { pre: Seq::empty(), build, ..minimum_version(role) },
            minimum_version(role),
        ),
        pre.len() > 0 ==> !reaches(
            VersionParts { pre, build, ..minimum_version(role) },
            minimum_version(role),
        ),
{
}

/// The text of an agent version holds its base version, role, release version and client type whole,
/// in this order, one slash behind each of the first three, and nothing else.
pub proof fn law_text_holds_the_fields(agent: AgentVersion)
    ensures
        agent.text() == agent.base_version@ + seq!['/'] + agent.role@ + seq!['/']
            + agent.release_version@ + seq!['/'] + agent.client_type@,
{
    assert(agent.text() =~= agent.base_version@ + seq!['/'] + agent.role@ + seq!['/']
        + agent.release_version@ + seq!['/'] + agent.client_type@);
}

/// The text of four fields holds them whole, in the order in which they are given, with slashes
/// between them.
pub proof fn law_agent_text_holds_the_fields(
    base_version: Seq<char>,
    role: Seq<char>,
    release_version: Seq<char>,
    client_type: Seq<char>,
)
    ensures
        agent_text(base_version, role, release_version, client_type) == base_version + seq!['/']
            + role + seq!['/'] + release_version + seq!['/'] + client_type,
{
    assert(agent_text(base_version, role, release_version, client_type) =~= base_version + seq!['/']
        + role + seq!['/'] + release_version + seq!['/'] + client_type);
}

/// Slashes are counted character by character: a text has as many as its parts have together.
pub proof fn law_slashes_are_counted(c: char, front: Seq<char>, back: Seq<char>)
    ensures
        slashes(Seq::<char>::empty()) == 0,
        slashes(seq![c]) == if c == '/' {
            1nat
        } else {
            0nat
        },
        slashes(front + back) == slashes(front) + slashes(back),
{
    assert(seq![c].drop_last() =~= Seq::<char>::empty());
    lemma_slashes_add(front, back);
}

/// Where a text has slashes at three positions and nowhere else, it is read, and what is read are the
/// four parts between them.
pub proof fn law_fields_stand_between_the_slashes(
    s: Seq<char>,
    i: int,
    j: int,
    k: int,
    agent: AgentVersion,
)
    requires
        0 <= i < j < k < s.len(),
        forall|p: int| 0 <= p < s.len() ==> (#[trigger] s[p] == '/' <==> p == i || p == j || p == k),
    ensures
        slashes(s) == 3,
        agent.slash_free() && agent.text() == s ==> {
            &&& agent.base_version@ == s.subrange(0, i)
            &&& agent.role@ == s.subrange(i + 1, j)
            &&& agent.release_version@ == s.subrange(j + 1, k)
            &&& agent.client_type@ == s.subrange(k + 1, s.len() as int)
        },
{
    let a = s.subrange(0, i);
    let b = s.subrange(i + 1, j);
    let c = s.subrange(j + 1, k);
    let d = s.subrange(k + 1, s.len() as int);
    assert(s =~= slash(slash(slash(a, b), c), d));
    assert(!a.contains('/')) by {
        if a.contains('/') {
            assert(s[a.index_of('/')] == '/');
        }
    }
    assert(!b.contains('/')) by {
        if b.contains('/') {
            assert(s[i + 1 + b.index_of('/')] == '/');
        }
    }
    assert(!c.contains('/')) by {
        if c.contains('/') {
            assert(s[j + 1 + c.index_of('/')] == '/');
        }
    }
    assert(!d.contains('/')) by {
        if d.contains('/') {
            assert(s[k + 1 + d.index_of('/')] == '/');
        }
    }
    lemma_slashes_of_slash(a, b);
    lemma_slashes_of_slash(slash(a, b), c);
    lemma_slashes_of_slash(slash(slash(a, b), c), d);
    lemma_slashes_none(a);
    lemma_slashes_none(b);
    lemma_slashes_none(c);
    lemma_slashes_none(d);
    if agent.slash_free() && agent.text() == s {
        let r = slash(agent.base_version@, agent.role@);
        lemma_last_slash(
            slash(slash(a, b), c),
            d,
            slash(r, agent.release_version@),
            agent.client_type@,
        );
        lemma_last_slash(slash(a, b), c, r, agent.release_version@);
        lemma_last_slash(a, b, agent.base_version@, agent.role@);
    }
}

/// An agent version is free of slashes exactly if none of its fields has one.
pub proof fn law_slash_free_fields(agent: AgentVersion)
    ensures
        agent.slash_free() <==> {
            &&& forall|i: int|
                0 <= i < agent.base_version@.len() ==> #[trigger] agent.base_version@[i] != '/'
            &&& forall|i: int| 0 <= i < agent.role@.len() ==> #[trigger] agent.role@[i] != '/'
            &&& forall|i: int|
                0 <= i < agent.release_version@.len() ==> #[trigger] agent.release_version@[i] != '/'
            &&& forall|i: int|
                0 <= i < agent.client_type@.len() ==> #[trigger] agent.client_type@[i] != '/'
        },
{
}

/// A bootstrap node is supported from 0.1.1 on and any other node from 1.9.2 on, pre-releases of
/// these two excepted.
pub proof fn law_supported_releases(role: Seq<char>, version: VersionParts)
    ensures
        role == "bootstrap"@ ==> (reaches(version, minimum_version(role)) <==> {
            ||| version.major > 0
            ||| version.minor > 1
            ||| version.minor == 1 && version.patch > 1
            ||| version.minor == 1 && version.patch == 1 && version.pre.len() == 0
        }),
        role != "bootstrap"@ ==> (reaches(version, minimum_version(role)) <==> {
            ||| version.major > 1
            ||| version.major == 1 && version.minor > 9
            ||| version.major == 1 && version.minor == 9 && version.patch > 2
            ||| version.major == 1 && version.minor == 9 && version.patch == 2 && version.pre.len()
                == 0
        }),
        role == "bootstrap"@ ==> minimum_version(role) == (VersionParts {
            major: 0,
            minor: 1,
            patch: 1,
            pre: Seq::empty(),
            build: Seq::empty(),
        }),
        role != "bootstrap"@ ==> minimum_version(role) == (VersionParts {
            major: 1,
            minor: 9,
            patch: 2,
            pre: Seq::empty(),
            build: Seq::empty(),
        }),
{
}

} // verus!
