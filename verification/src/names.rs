//! Names of silos: the fingerprint that keeps storage directories apart, the
//! shortest display name that tells every silo from the others, and the way
//! back from a name that a user typed to the silo it means.

use vstd::prelude::*;
use vstd::string::StringExecFns;
use vstd::utf8::encode_utf8;
use sha2::Digest;
use crate::paths::{join_path, joined_path, lemma_path_chain_clean, path_chain, path_components};
use crate::silo::{RepoId, Silo};
use crate::text::{
    free_of, join, join_with, lemma_join_holds_sep, lemma_split_join, lemma_split_nonempty, split,
    split_on, str_eq,
};

verus! {

/// The SHA-256 digest of a sequence of bytes.
pub uninterp spec fn sha256_of(data: Seq<u8>) -> Seq<u8>;

/// `Sha256::digest` of the sha2 crate, which hashes the whole of `data` in
/// one call. The digest depends on the bytes alone and is 32 bytes long.
#[verifier::external_body]
fn sha256(data: &[u8]) -> (digest: Vec<u8>)
    ensures
        digest@ == sha256_of(data@),
        digest@.len() == 32,
{
    sha2::Sha256::digest(data).to_vec()
}

/// The lowercase hexadecimal digit for a value below sixteen.
pub open spec fn hex_digit(d: int) -> char {
    if d == 0 {
        '0'
    } else if d == 1 {
        '1'
    } else if d == 2 {
        '2'
    } else if d == 3 {
        '3'
    } else if d == 4 {
        '4'
    } else if d == 5 {
        '5'
    } else if d == 6 {
        '6'
    } else if d == 7 {
        '7'
    } else if d == 8 {
        '8'
    } else if d == 9 {
        '9'
    } else if d == 10 {
        'a'
    } else if d == 11 {
        'b'
    } else if d == 12 {
        'c'
    } else if d == 13 {
        'd'
    } else if d == 14 {
        'e'
    } else {
        'f'
    }
}

/// The two hexadecimal digits of a byte, the high one first.
pub open spec fn hex_pair(b: u8) -> Seq<char> {
    seq![hex_digit(b as int / 16), hex_digit(b as int % 16)]
}

/// Whether `c` is one of `0`-`9`, `a`-`f`.
pub open spec fn is_lower_hex(c: char) -> bool {
    exists|d: int| 0 <= d < 16 && c == #[trigger] hex_digit(d)
}

/// The bytes in hexadecimal, two digits for each.
pub open spec fn hex_string(bytes: Seq<u8>) -> Seq<char>
    decreases bytes.len(),
{
    if bytes.len() == 0 {
        Seq::<char>::empty()
    } else {
        hex_string(bytes.drop_last()) + hex_pair(bytes.last())
    }
}

/// The first `count` of `bytes`, or all of them where they are fewer.
pub open spec fn head(bytes: Seq<u8>, count: nat) -> Seq<u8> {
    if count <= bytes.len() {
        bytes.take(count as int)
    } else {
        bytes
    }
}

/// The fingerprint of a path: the first four bytes of the SHA-256 digest of
/// its UTF-8 bytes, taken as they are, in eight hexadecimal digits.
pub open spec fn fingerprint(path: Seq<char>) -> Seq<char> {
    hex_string(head(sha256_of(encode_utf8(path)), 4))
}

/// The name of a repository's storage directory.
pub open spec fn storage_name(repo_name: Seq<char>, repo_path: Seq<char>) -> Seq<char> {
    repo_name + seq!['-'] + fingerprint(repo_path)
}

fn hex_char(d: u8) -> (c: char)
    requires
        d < 16,
    ensures
        c == hex_digit(d as int),
{
    match d {
        0 => '0',
        1 => '1',
        2 => '2',
        3 => '3',
        4 => '4',
        5 => '5',
        6 => '6',
        7 => '7',
        8 => '8',
        9 => '9',
        10 => 'a',
        11 => 'b',
        12 => 'c',
        13 => 'd',
        14 => 'e',
        _ => 'f',
    }
}

/// Hexadecimal digits are all that a hexadecimal string holds, two for each
/// byte.
pub proof fn lemma_hex_string(bytes: Seq<u8>)
    ensures
        hex_string(bytes).len() == 2 * bytes.len(),
        forall|k: int| 0 <= k < hex_string(bytes).len() ==> is_lower_hex(#[trigger] hex_string(bytes)[k]),
    decreases bytes.len(),
{
    if bytes.len() > 0 {
        lemma_hex_string(bytes.drop_last());
        let before = hex_string(bytes.drop_last());
        let whole = hex_string(bytes);
        let b = bytes.last();
        assert forall|k: int| 0 <= k < whole.len() implies is_lower_hex(#[trigger] whole[k]) by {
            if k < before.len() {
                assert(whole[k] == before[k]);
            } else if k == before.len() {
                assert(whole[k] == hex_digit(b as int / 16));
            } else {
                assert(whole[k] == hex_digit(b as int % 16));
            }
        }
    }
}

/// The first `count` of `bytes` in lowercase hexadecimal, two digits for
/// each byte; all of them where they are fewer.
pub fn hex_prefix(bytes: &[u8], count: usize) -> (out: String)
    ensures
        out@ == hex_string(head(bytes@, count as nat)),
{
    let upto: usize = if count <= bytes.len() {
        count
    } else {
        bytes.len()
    };
    let ghost wanted = head(bytes@, count as nat);
    let mut out = String::new();
    let mut i: usize = 0;
    while i < upto
        invariant
            i <= upto <= bytes.len(),
            wanted == bytes@.take(upto as int),
            out@ == hex_string(wanted.take(i as int)),
        decreases upto - i,
    {
        let b = bytes[i];
        assert(wanted.take(i + 1).drop_last() =~= wanted.take(i as int));
        out.push(hex_char(b / 16));
        out.push(hex_char(b % 16));
        assert(out@ =~= hex_string(wanted.take(i as int)) + hex_pair(b));
        i += 1;
    }
    assert(wanted.take(upto as int) =~= wanted);
    out
}

/// The fingerprint of `path`. Equal paths always give equal fingerprints;
/// with 32 bits, two different paths may share one, which is accepted.
pub fn path_hash(path: &str) -> (hash: String)
    ensures
        hash@ == fingerprint(path@),
        hash@.len() == 8,
        forall|k: int| 0 <= k < 8 ==> is_lower_hex(#[trigger] hash@[k]),
{
    let digest = sha256(path.as_bytes());
    let hash = hex_prefix(digest.as_slice(), 4);
    proof {
        lemma_hex_string(head(digest@, 4));
    }
    hash
}

/// The name of the storage directory of a repository: its name, a hyphen and
/// the fingerprint of its path.
pub fn repo_storage_name(repo_name: &str, repo_path: &str) -> (name: String)
    ensures
        name@ == storage_name(repo_name@, repo_path@),
{
    let hash = path_hash(repo_path);
    let mut name = String::from_str(repo_name);
    name.push('-');
    name.append(hash.as_str());
    name
}

/// Where a silo is stored: the branch, under the repository's storage
/// directory, under `base_dir`.
pub fn silo_storage_path(base_dir: &str, repo_name: &str, repo_path: &str, branch: &str) -> (path:
    String)
    ensures
        path@ == joined_path(
            joined_path(base_dir@, storage_name(repo_name@, repo_path@)),
            branch@,
        ),
{
    let name = repo_storage_name(repo_name, repo_path);
    let repo_dir = join_path(base_dir, name.as_str());
    join_path(repo_dir.as_str(), branch)
}

/// The display name of a leaf under the first `depth` components of its
/// chain: the components from the farthest to the nearest, then the leaf,
/// with `/` between them. A depth beyond the chain takes the whole chain.
pub open spec fn display_name(leaf: Seq<char>, chain: Seq<Seq<char>>, depth: nat) -> Seq<char> {
    let used = if depth <= chain.len() {
        depth as int
    } else {
        chain.len() as int
    };
    join_with(chain.take(used).reverse().push(leaf), seq!['/'])
}

/// The display name of `name` with `depth` components of its repository's
/// path in front.
pub fn build_display_name(name: &str, repo_components: &Vec<String>, depth: usize) -> (out: String)
    ensures
        out@ == display_name(name@, repo_components.deep_view(), depth as nat),
{
    let used: usize = if depth <= repo_components.len() {
        depth
    } else {
        repo_components.len()
    };
    let ghost wanted = repo_components.deep_view().take(used as int).reverse();
    let mut parts: Vec<String> = Vec::new();
    let mut k: usize = used;
    while k > 0
        invariant
            k <= used <= repo_components.len(),
            wanted == repo_components.deep_view().take(used as int).reverse(),
            parts.deep_view() == wanted.take(used - k),
        decreases k,
    {
        let ghost before = parts.deep_view();
        k -= 1;
        parts.push(repo_components[k].clone());
        assert(parts.deep_view() =~= before.push(repo_components[k as int]@));
    }
    assert(wanted.take(used as int) =~= wanted);
    let ghost before = parts.deep_view();
    parts.push(String::from_str(name));
    assert(parts.deep_view() =~= before.push(name@));
    proof {
        reveal_strlit("/");
        assert("/"@ =~= seq!['/']);
    }
    join(&parts, "/")
}

/// What naming and resolution read of a silo.
pub struct Entity {
    /// The silo's own short name.
    pub leaf: Seq<char>,
    /// The names of the scopes above it, the nearest first.
    pub chain: Seq<Seq<char>>,
    /// The identity of the scope that owns it, compared exactly.
    pub scope: Seq<char>,
}

/// The entity that a silo stands for: its name, the components of its
/// repository's path and that path itself.
pub open spec fn entity_of(silo: Silo) -> Entity {
    Entity {
        leaf: silo.name@,
        chain: path_chain(silo.main_worktree@),
        scope: silo.main_worktree@,
    }
}

/// The entities that a list of silos stands for, in order.
pub open spec fn entities_of(silos: Seq<Silo>) -> Seq<Entity> {
    Seq::new(silos.len(), |i: int| entity_of(silos[i]))
}

/// The candidate name of every entity at its current depth.
pub open spec fn names_at(entities: Seq<Entity>, depths: Seq<nat>) -> Seq<Seq<char>> {
    Seq::new(
        entities.len(),
        |i: int| display_name(entities[i].leaf, entities[i].chain, depths[i]),
    )
}

/// Whether the name at `i` is also the name at another index.
pub open spec fn collides(names: Seq<Seq<char>>, i: int) -> bool {
    exists|j: int| 0 <= j < names.len() && j != i && #[trigger] names[j] == names[i]
}

/// One round: every entity whose name collides and whose chain is not used
/// up goes one level deeper; all of them at once.
pub open spec fn escalated(entities: Seq<Entity>, depths: Seq<nat>) -> Seq<nat> {
    Seq::new(
        entities.len(),
        |i: int|
            if collides(names_at(entities, depths), i) && depths[i] < entities[i].chain.len() {
                (depths[i] + 1) as nat
            } else {
                depths[i]
            },
    )
}

/// Every depth stays within the length of its chain.
pub open spec fn within_caps(entities: Seq<Entity>, depths: Seq<nat>) -> bool {
    &&& depths.len() == entities.len()
    &&& forall|i: int| 0 <= i < entities.len() ==> depths[i] <= (#[trigger] entities[i]).chain.len()
}

/// How many levels are left in all, over every entity.
pub open spec fn slack(entities: Seq<Entity>, depths: Seq<nat>) -> nat
    decreases entities.len(),
{
    if entities.len() == 0 || depths.len() != entities.len() {
        0
    } else {
        let rest = slack(entities.drop_last(), depths.drop_last());
        let left = entities.last().chain.len() - depths.last();
        if left > 0 {
            rest + left as nat
        } else {
            rest
        }
    }
}

/// The depths at which the rounds come to rest.
pub open spec fn settled(entities: Seq<Entity>, depths: Seq<nat>) -> Seq<nat>
    decreases slack(entities, depths),
    when within_caps(entities, depths)
    via settled_decreases
{
    if escalated(entities, depths) == depths {
        depths
    } else {
        settled(entities, escalated(entities, depths))
    }
}

#[via_fn]
proof fn settled_decreases(entities: Seq<Entity>, depths: Seq<nat>) {
    if escalated(entities, depths) != depths {
        lemma_round_uses_slack(entities, depths);
    }
}

/// The depths before the first round: one where a prefix is asked for and
/// the chain has a component to give, zero otherwise.
pub open spec fn initial_depths(entities: Seq<Entity>, min_depth: bool) -> Seq<nat> {
    Seq::new(
        entities.len(),
        |i: int|
            if min_depth && entities[i].chain.len() > 0 {
                1nat
            } else {
                0nat
            },
    )
}

/// The shortest display names: the candidate names at the depths where the
/// rounds come to rest, in the order of the entities.
pub open spec fn minimized(entities: Seq<Entity>, min_depth: bool) -> Seq<Seq<char>> {
    names_at(entities, settled(entities, initial_depths(entities, min_depth)))
}

/// Depths that only grow, within the caps, leave less slack; strictly less
/// where one of them grew.
proof fn lemma_slack_shrinks(entities: Seq<Entity>, low: Seq<nat>, high: Seq<nat>)
    requires
        within_caps(entities, low),
        within_caps(entities, high),
        forall|i: int| 0 <= i < entities.len() ==> low[i] <= high[i],
    ensures
        slack(entities, high) <= slack(entities, low),
        (exists|i: int| 0 <= i < entities.len() && low[i] < high[i]) ==> slack(entities, high)
            < slack(entities, low),
    decreases entities.len(),
{
    if entities.len() > 0 {
        let es = entities.drop_last();
        let lo = low.drop_last();
        let hi = high.drop_last();
        let n = entities.len() - 1;
        assert forall|i: int| 0 <= i < es.len() implies lo[i] <= (#[trigger] es[i]).chain.len()
            && hi[i] <= es[i].chain.len() && lo[i] <= hi[i] by {
            assert(es[i] == entities[i]);
        }
        lemma_slack_shrinks(es, lo, hi);
        assert(entities.last() == entities[n]);
        assert(low.last() == low[n]);
        assert(high.last() == high[n]);
        if exists|i: int| 0 <= i < entities.len() && low[i] < high[i] {
            let w = choose|i: int| 0 <= i < entities.len() && low[i] < high[i];
            if w < n {
                assert(lo[w] < hi[w]);
            }
        }
    }
}

/// A round that changes anything stays within the caps and uses up slack.
proof fn lemma_round_uses_slack(entities: Seq<Entity>, depths: Seq<nat>)
    requires
        within_caps(entities, depths),
        escalated(entities, depths) != depths,
    ensures
        within_caps(entities, escalated(entities, depths)),
        slack(entities, escalated(entities, depths)) < slack(entities, depths),
{
    let next = escalated(entities, depths);
    if forall|i: int| 0 <= i < entities.len() ==> next[i] == depths[i] {
        assert(next =~= depths);
    }
    lemma_slack_shrinks(entities, depths, next);
}

/// A round never lowers a depth and keeps every depth within its cap.
proof fn lemma_round_grows(entities: Seq<Entity>, depths: Seq<nat>)
    requires
        within_caps(entities, depths),
    ensures
        within_caps(entities, escalated(entities, depths)),
        forall|i: int| 0 <= i < entities.len() ==> depths[i] <= escalated(entities, depths)[i],
{
}

/// Where the rounds come to rest, another round changes nothing, every
/// depth is within its cap, and none is below where it started.
pub proof fn lemma_settled_is_stable(entities: Seq<Entity>, depths: Seq<nat>)
    requires
        within_caps(entities, depths),
    ensures
        within_caps(entities, settled(entities, depths)),
        escalated(entities, settled(entities, depths)) == settled(entities, depths),
        forall|i: int| 0 <= i < entities.len() ==> depths[i] <= settled(entities, depths)[i],
    decreases slack(entities, depths),
{
    if escalated(entities, depths) != depths {
        lemma_round_uses_slack(entities, depths);
        lemma_round_grows(entities, depths);
        lemma_settled_is_stable(entities, escalated(entities, depths));
    }
}

/// The depths of a vector, as natural numbers.
pub open spec fn as_nats(v: Seq<usize>) -> Seq<nat> {
    Seq::new(v.len(), |i: int| v[i] as nat)
}

/// Whether the name at `i` stands at another index too.
fn collides_at(names: &Vec<String>, i: usize) -> (hit: bool)
    requires
        i < names.len(),
    ensures
        hit == collides(names.deep_view(), i as int),
{
    let mut j: usize = 0;
    while j < names.len()
        invariant
            i < names.len(),
            j <= names.len(),
            forall|k: int| 0 <= k < j && k != i ==> names.deep_view()[k] != names.deep_view()[i as int],
        decreases names.len() - j,
    {
        if j != i && names[j] == names[i] {
            assert(names.deep_view()[j as int] == names.deep_view()[i as int]);
            return true;
        }
        j += 1;
    }
    false
}

/// The candidate name of every silo at its depth.
fn names_for(silos: &[Silo], chains: &Vec<Vec<String>>, depth: &Vec<usize>) -> (names: Vec<String>)
    requires
        chains.len() == silos.len(),
        depth.len() == silos.len(),
        forall|k: int|
            0 <= k < silos.len() ==> (#[trigger] chains[k]).deep_view() == path_chain(
                silos[k].main_worktree@,
            ),
    ensures
        names.deep_view() == names_at(entities_of(silos@), as_nats(depth@)),
        names.len() == silos.len(),
{
    let ghost wanted = names_at(entities_of(silos@), as_nats(depth@));
    let mut names: Vec<String> = Vec::new();
    let mut i: usize = 0;
    while i < silos.len()
        invariant
            i <= silos.len(),
            chains.len() == silos.len(),
            depth.len() == silos.len(),
            forall|k: int|
                0 <= k < silos.len() ==> (#[trigger] chains[k]).deep_view() == path_chain(
                    silos[k].main_worktree@,
                ),
            wanted == names_at(entities_of(silos@), as_nats(depth@)),
            names.deep_view() == wanted.take(i as int),
        decreases silos.len() - i,
    {
        let ghost before = names.deep_view();
        let name = build_display_name(silos[i].name.as_str(), &chains[i], depth[i]);
        names.push(name);
        assert(names.deep_view() =~= before.push(wanted[i as int]));
        i += 1;
    }
    names
}

/// The shortest display name of every silo, in the order of `silos`.
///
/// Every silo starts with its bare name, or with one component of its
/// repository's path in front where `require_repo_prefix` is set. As long as
/// two names are equal, every silo that shares its name with another takes
/// one more component, if its path has one left. Names that are still equal
/// when no path has a component left are returned as they are.
pub fn generate_display_names(silos: &[Silo], require_repo_prefix: bool) -> (names: Vec<String>)
    ensures
        names.deep_view() == minimized(entities_of(silos@), require_repo_prefix),
        names.len() == silos.len(),
{
    let ghost entities = entities_of(silos@);
    let ghost start = initial_depths(entities, require_repo_prefix);
    let n = silos.len();
    let mut chains: Vec<Vec<String>> = Vec::new();
    let mut depth: Vec<usize> = Vec::new();
    let mut i: usize = 0;
    while i < n
        invariant
            n == silos.len(),
            i <= n,
            chains.len() == i,
            depth.len() == i,
            entities == entities_of(silos@),
            start == initial_depths(entities, require_repo_prefix),
            forall|k: int|
                0 <= k < i ==> (#[trigger] chains[k]).deep_view() == path_chain(
                    silos[k].main_worktree@,
                ),
            forall|k: int| 0 <= k < i ==> depth[k] as nat == start[k],
        decreases n - i,
    {
        let chain = path_components(silos[i].main_worktree.as_str());
        let first: usize = if require_repo_prefix && chain.len() > 0 {
            1
        } else {
            0
        };
        chains.push(chain);
        depth.push(first);
        i += 1;
    }
    assert(as_nats(depth@) =~= start);
    loop
        invariant
            n == silos.len(),
            chains.len() == n,
            depth.len() == n,
            entities == entities_of(silos@),
            start == initial_depths(entities, require_repo_prefix),
            forall|k: int|
                0 <= k < n ==> (#[trigger] chains[k]).deep_view() == path_chain(
                    silos[k].main_worktree@,
                ),
            within_caps(entities, as_nats(depth@)),
            settled(entities, as_nats(depth@)) == settled(entities, start),
        decreases slack(entities, as_nats(depth@)),
    {
        let ghost now = as_nats(depth@);
        let names = names_for(silos, &chains, &depth);
        let mut next: Vec<usize> = Vec::new();
        let mut progressed = false;
        let mut i: usize = 0;
        while i < n
            invariant
                n == silos.len(),
                i <= n,
                chains.len() == n,
                depth.len() == n,
                next.len() == i,
                names.len() == n,
                entities == entities_of(silos@),
                now == as_nats(depth@),
                names.deep_view() == names_at(entities, now),
                within_caps(entities, now),
                forall|k: int|
                    0 <= k < n ==> (#[trigger] chains[k]).deep_view() == path_chain(
                        silos[k].main_worktree@,
                    ),
                forall|k: int| 0 <= k < i ==> next[k] as nat == escalated(entities, now)[k],
                progressed == exists|k: int| 0 <= k < i && next[k] != depth[k],
            decreases n - i,
        {
            let hit = collides_at(&names, i);
            if hit && depth[i] < chains[i].len() {
                next.push(depth[i] + 1);
                progressed = true;
            } else {
                next.push(depth[i]);
            }
            i += 1;
        }
        if !progressed {
            assert(escalated(entities, now) =~= now);
            return names;
        }
        proof {
            assert(as_nats(next@) =~= escalated(entities, now));
            lemma_round_uses_slack(entities, now);
        }
        depth = next;
    }
}

/// What resolving a name comes to.
#[derive(Debug, PartialEq, Eq)]
pub enum ResolveResult<'a> {
    /// Exactly one silo answers to the name.
    Found(&'a Silo),
    /// No silo answers to it.
    NotFound,
    /// Two or more do; all of them, in the order of the list.
    Ambiguous(Vec<&'a Silo>),
}

/// The outcome of a resolution over positions in the list of entities.
pub enum Resolution {
    Found(int),
    NotFound,
    Ambiguous(Seq<int>),
}

/// Whether the last pieces of `pieces` are exactly `parts`.
pub open spec fn ends_with_parts(pieces: Seq<Seq<char>>, parts: Seq<Seq<char>>) -> bool {
    parts.len() <= pieces.len() && pieces.subrange(
        pieces.len() - parts.len(),
        pieces.len() as int,
    ) == parts
}

/// Whether a display name answers to a query: it is the query, or its
/// `/`-separated components end with those of the query, component by
/// component.
pub open spec fn name_matches(name: Seq<char>, query: Seq<char>) -> bool {
    name == query || ends_with_parts(split_on(name, '/'), split_on(query, '/'))
}

/// The positions of the flags that are set, in rising order.
pub open spec fn picked(flags: Seq<bool>) -> Seq<int>
    decreases flags.len(),
{
    if flags.len() == 0 {
        Seq::<int>::empty()
    } else if flags.last() {
        picked(flags.drop_last()).push(flags.len() - 1)
    } else {
        picked(flags.drop_last())
    }
}

/// For every entity, whether it lies in the scope and has the leaf name.
pub open spec fn scope_flags(entities: Seq<Entity>, scope: Seq<char>, leaf: Seq<char>) -> Seq<
    bool,
> {
    Seq::new(entities.len(), |i: int| entities[i].scope == scope && entities[i].leaf == leaf)
}

/// For every name, whether it answers to the query.
pub open spec fn query_flags(names: Seq<Seq<char>>, query: Seq<char>) -> Seq<bool> {
    Seq::new(names.len(), |i: int| name_matches(names[i], query))
}

/// Which entities a query means.
///
/// With a current scope, the entities of that scope whose leaf name is the
/// last component of the query come first: if there is exactly one, it is
/// the answer, whatever other scopes hold. Otherwise the query is held
/// against the shortest display names of all entities.
pub open spec fn resolution(entities: Seq<Entity>, query: Seq<char>, scope: Option<Seq<char>>) -> Resolution {
    if entities.len() == 0 {
        Resolution::NotFound
    } else {
        let leaf = split_on(query, '/').last();
        let local = match scope {
            Some(s) => picked(scope_flags(entities, s, leaf)),
            None => Seq::<int>::empty(),
        };
        if local.len() == 1 {
            Resolution::Found(local[0])
        } else {
            let hits = picked(query_flags(minimized(entities, false), query));
            if hits.len() == 0 {
                Resolution::NotFound
            } else if hits.len() == 1 {
                Resolution::Found(hits[0])
            } else {
                Resolution::Ambiguous(hits)
            }
        }
    }
}

impl<'a> ResolveResult<'a> {
    /// Whether this result hands out the silos at the positions that
    /// `outcome` names.
    pub open spec fn agrees(self, silos: Seq<Silo>, outcome: Resolution) -> bool {
        match (self, outcome) {
            (ResolveResult::Found(silo), Resolution::Found(at)) => 0 <= at < silos.len() && *silo
                == silos[at],
            (ResolveResult::NotFound, Resolution::NotFound) => true,
            (ResolveResult::Ambiguous(found), Resolution::Ambiguous(at)) => {
                &&& found@.len() == at.len()
                &&& forall|k: int|
                    0 <= k < at.len() ==> 0 <= #[trigger] at[k] < silos.len() && *found@[k]
                        == silos[at[k]]
            },
            _ => false,
        }
    }
}

/// The positions of a vector, as integers.
pub open spec fn as_ints(v: Seq<usize>) -> Seq<int> {
    Seq::new(v.len(), |i: int| v[i] as int)
}

proof fn lemma_picked_step(flags: Seq<bool>, i: int)
    requires
        0 <= i < flags.len(),
    ensures
        picked(flags.take(i + 1)) == if flags[i] {
            picked(flags.take(i)).push(i)
        } else {
            picked(flags.take(i))
        },
{
    assert(flags.take(i + 1).drop_last() =~= flags.take(i));
}

/// Whether the components of `display` end with `parts`.
pub fn matches_suffix(display: &str, parts: &Vec<String>) -> (hit: bool)
    ensures
        hit == ends_with_parts(split_on(display@, '/'), parts.deep_view()),
{
    let pieces = split(display, '/');
    if parts.len() > pieces.len() {
        return false;
    }
    let start: usize = pieces.len() - parts.len();
    let ghost tail = pieces.deep_view().subrange(start as int, pieces.len() as int);
    let mut k: usize = 0;
    while k < parts.len()
        invariant
            start + parts.len() == pieces.len(),
            k <= parts.len(),
            pieces.deep_view() == split_on(display@, '/'),
            tail == pieces.deep_view().subrange(start as int, pieces.len() as int),
            forall|j: int| 0 <= j < k ==> tail[j] == parts.deep_view()[j],
        decreases parts.len() - k,
    {
        if !(pieces[start + k] == parts[k]) {
            assert(tail[k as int] != parts.deep_view()[k as int]);
            return false;
        }
        k += 1;
    }
    assert(tail =~= parts.deep_view());
    true
}

fn scope_hits(silos: &[Silo], scope: &str, leaf: &str) -> (hits: Vec<usize>)
    ensures
        as_ints(hits@) == picked(scope_flags(entities_of(silos@), scope@, leaf@)),
        forall|k: int| 0 <= k < hits.len() ==> hits[k] < silos.len(),
{
    let ghost flags = scope_flags(entities_of(silos@), scope@, leaf@);
    let mut hits: Vec<usize> = Vec::new();
    let mut i: usize = 0;
    while i < silos.len()
        invariant
            i <= silos.len(),
            flags == scope_flags(entities_of(silos@), scope@, leaf@),
            as_ints(hits@) == picked(flags.take(i as int)),
            forall|k: int| 0 <= k < hits.len() ==> hits[k] < i,
        decreases silos.len() - i,
    {
        let hit = str_eq(silos[i].main_worktree.as_str(), scope) && str_eq(
            silos[i].name.as_str(),
            leaf,
        );
        proof {
            lemma_picked_step(flags, i as int);
        }
        if hit {
            hits.push(i);
        }
        i += 1;
    }
    assert(flags.take(i as int) =~= flags);
    hits
}

fn query_hits(names: &Vec<String>, query: &str, parts: &Vec<String>) -> (hits: Vec<usize>)
    requires
        parts.deep_view() == split_on(query@, '/'),
    ensures
        as_ints(hits@) == picked(query_flags(names.deep_view(), query@)),
        forall|k: int| 0 <= k < hits.len() ==> hits[k] < names.len(),
{
    let ghost flags = query_flags(names.deep_view(), query@);
    let mut hits: Vec<usize> = Vec::new();
    let mut i: usize = 0;
    while i < names.len()
        invariant
            i <= names.len(),
            parts.deep_view() == split_on(query@, '/'),
            flags == query_flags(names.deep_view(), query@),
            as_ints(hits@) == picked(flags.take(i as int)),
            forall|k: int| 0 <= k < hits.len() ==> hits[k] < i,
        decreases names.len() - i,
    {
        let hit = str_eq(names[i].as_str(), query) || matches_suffix(names[i].as_str(), parts);
        proof {
            lemma_picked_step(flags, i as int);
        }
        if hit {
            hits.push(i);
        }
        i += 1;
    }
    assert(flags.take(i as int) =~= flags);
    hits
}

/// The view of an optional scope.
pub open spec fn scope_of(current: Option<RepoId>) -> Option<Seq<char>> {
    match current {
        Some(path) => Some(path@),
        None => None,
    }
}

/// The silo that `input` means.
///
/// `input` may be a bare silo name or a name with components of the
/// repository's path in front. Where `current_repo` is given and exactly one
/// silo of that repository has the last component of `input` as its name,
/// that silo is found, even if other repositories hold a silo of the same
/// name. Otherwise every silo whose shortest display name is `input`, or ends
/// with the components of `input`, answers: none gives `NotFound`, one gives
/// `Found`, more give `Ambiguous` with all of them in the order of `silos`.
pub fn resolve_name<'a>(input: &str, silos: &'a [Silo], current_repo: Option<RepoId>) -> (result:
    ResolveResult<'a>)
    ensures
        result.agrees(
            silos@,
            resolution(entities_of(silos@), input@, scope_of(current_repo)),
        ),
{
    if silos.len() == 0 {
        return ResolveResult::NotFound;
    }
    let parts = split(input, '/');
    let leaf = parts[parts.len() - 1].as_str();
    match &current_repo {
        Some(repo) => {
            let local = scope_hits(silos, repo.as_str(), leaf);
            if local.len() == 1 {
                return ResolveResult::Found(&silos[local[0]]);
            }
        },
        None => {},
    }
    let names = generate_display_names(silos, false);
    let hits = query_hits(&names, input, &parts);
    if hits.len() == 0 {
        ResolveResult::NotFound
    } else if hits.len() == 1 {
        ResolveResult::Found(&silos[hits[0]])
    } else {
        let mut found: Vec<&'a Silo> = Vec::new();
        let mut k: usize = 0;
        while k < hits.len()
            invariant
                k <= hits.len(),
                found.len() == k,
                forall|j: int| 0 <= j < hits.len() ==> hits[j] < silos.len(),
                forall|j: int| 0 <= j < k ==> *found[j] == silos[hits[j] as int],
            decreases hits.len() - k,
        {
            found.push(&silos[hits[k]]);
            k += 1;
        }
        ResolveResult::Ambiguous(found)
    }
}

/// The name of an entity with its whole chain in front.
pub open spec fn full_name(entity: Entity) -> Seq<char> {
    display_name(entity.leaf, entity.chain, entity.chain.len())
}

/// Names that are all different at full depth are all different once
/// minimized: two names are left equal only where nothing more can be added
/// to either.
pub proof fn law_distinct_full_names_stay_distinct(entities: Seq<Entity>, min_depth: bool)
    requires
        forall|i: int, j: int|
            0 <= i < j < entities.len() ==> full_name(#[trigger] entities[i]) != full_name(
                #[trigger] entities[j],
            ),
    ensures
        minimized(entities, min_depth).len() == entities.len(),
        forall|i: int, j: int|
            0 <= i < j < entities.len() ==> #[trigger] minimized(entities, min_depth)[i]
                != #[trigger] minimized(entities, min_depth)[j],
{
    let start = initial_depths(entities, min_depth);
    lemma_settled_is_stable(entities, start);
    let rest = settled(entities, start);
    let names = names_at(entities, rest);
    assert forall|i: int, j: int| 0 <= i < j < entities.len() implies #[trigger] names[i]
        != #[trigger] names[j] by {
        if names[i] == names[j] {
            assert(collides(names, i));
            assert(collides(names, j));
            assert(escalated(entities, rest)[i] == rest[i]);
            assert(escalated(entities, rest)[j] == rest[j]);
            assert(entities[i] == entities[i]);
            assert(rest[i] == entities[i].chain.len());
            assert(rest[j] == entities[j].chain.len());
            assert(names[i] == full_name(entities[i]));
            assert(names[j] == full_name(entities[j]));
        }
    }
}

/// The components and the leaf of an entity, in the order of its full name.
pub open spec fn full_parts(entity: Entity) -> Seq<Seq<char>> {
    entity.chain.reverse().push(entity.leaf)
}

/// Entities that differ in leaf name or in chain have different full names,
/// as long as no leaf name and no component holds a `/`.
pub proof fn lemma_full_names_differ(a: Entity, b: Entity)
    requires
        !a.leaf.contains('/'),
        !b.leaf.contains('/'),
        free_of(a.chain, '/'),
        free_of(b.chain, '/'),
        a.leaf != b.leaf || a.chain != b.chain,
    ensures
        full_name(a) != full_name(b),
{
    let pa = full_parts(a);
    let pb = full_parts(b);
    assert(a.chain.take(a.chain.len() as int) =~= a.chain);
    assert(b.chain.take(b.chain.len() as int) =~= b.chain);
    assert(free_of(pa, '/')) by {
        assert forall|i: int, j: int| 0 <= i < pa.len() && 0 <= j < pa[i].len() implies #[trigger] pa[i][j] != '/' by {
            if i < a.chain.len() {
                assert(pa[i] == a.chain[a.chain.len() - 1 - i]);
                assert(a.chain[a.chain.len() - 1 - i][j] != '/');
            } else {
                assert(pa[i] == a.leaf);
                assert(a.leaf[j] == a.leaf[j]);
            }
        }
    }
    assert(free_of(pb, '/')) by {
        assert forall|i: int, j: int| 0 <= i < pb.len() && 0 <= j < pb[i].len() implies #[trigger] pb[i][j] != '/' by {
            if i < b.chain.len() {
                assert(pb[i] == b.chain[b.chain.len() - 1 - i]);
                assert(b.chain[b.chain.len() - 1 - i][j] != '/');
            } else {
                assert(pb[i] == b.leaf);
                assert(b.leaf[j] == b.leaf[j]);
            }
        }
    }
    lemma_split_join(pa, '/');
    lemma_split_join(pb, '/');
    if full_name(a) == full_name(b) {
        assert(pa == pb);
        assert(pa.last() == a.leaf);
        assert(pb.last() == b.leaf);
        assert(a.chain.len() == b.chain.len());
        assert forall|k: int| 0 <= k < a.chain.len() implies a.chain[k] == b.chain[k] by {
            assert(pa[a.chain.len() - 1 - k] == a.chain[k]);
            assert(pb[b.chain.len() - 1 - k] == b.chain[k]);
        }
        assert(a.chain =~= b.chain);
    }
}

/// Entities that are pairwise different in leaf name or in chain get
/// pairwise different names, as long as no leaf name and no component of a
/// chain holds a `/`.
pub proof fn law_distinct_entities_get_distinct_names(entities: Seq<Entity>, min_depth: bool)
    requires
        forall|i: int| 0 <= i < entities.len() ==> !(#[trigger] entities[i]).leaf.contains('/'),
        forall|i: int| 0 <= i < entities.len() ==> free_of((#[trigger] entities[i]).chain, '/'),
        forall|i: int, j: int|
            0 <= i < j < entities.len() ==> (#[trigger] entities[i]).leaf != (
            #[trigger] entities[j]).leaf || entities[i].chain != entities[j].chain,
    ensures
        minimized(entities, min_depth).len() == entities.len(),
        forall|i: int, j: int|
            0 <= i < j < entities.len() ==> #[trigger] minimized(entities, min_depth)[i]
                != #[trigger] minimized(entities, min_depth)[j],
{
    assert forall|i: int, j: int| 0 <= i < j < entities.len() implies full_name(
        #[trigger] entities[i],
    ) != full_name(#[trigger] entities[j]) by {
        lemma_full_names_differ(entities[i], entities[j]);
    }
    law_distinct_full_names_stay_distinct(entities, min_depth);
}

/// Silos that pairwise differ in name or in the components of their
/// repository's path get pairwise different display names, as long as no
/// silo's name holds a `/`.
pub proof fn law_distinct_silos_get_distinct_names(silos: Seq<Silo>, require_repo_prefix: bool)
    requires
        forall|i: int| 0 <= i < silos.len() ==> !(#[trigger] silos[i]).name@.contains('/'),
        forall|i: int, j: int|
            0 <= i < j < silos.len() ==> (#[trigger] silos[i]).name@ != (#[trigger] silos[j]).name@
                || path_chain(silos[i].main_worktree@) != path_chain(silos[j].main_worktree@),
    ensures
        minimized(entities_of(silos), require_repo_prefix).len() == silos.len(),
        forall|i: int, j: int|
            0 <= i < j < silos.len() ==> #[trigger] minimized(
                entities_of(silos),
                require_repo_prefix,
            )[i] != #[trigger] minimized(entities_of(silos), require_repo_prefix)[j],
{
    let entities = entities_of(silos);
    assert forall|i: int| 0 <= i < entities.len() implies !(#[trigger] entities[i]).leaf.contains(
        '/',
    ) && free_of(entities[i].chain, '/') by {
        assert(entities[i] == entity_of(silos[i]));
        lemma_path_chain_clean(silos[i].main_worktree@);
    }
    assert forall|i: int, j: int| 0 <= i < j < entities.len() implies (#[trigger] entities[i]).leaf
        != (#[trigger] entities[j]).leaf || entities[i].chain != entities[j].chain by {
        assert(entities[i] == entity_of(silos[i]));
        assert(entities[j] == entity_of(silos[j]));
    }
    law_distinct_entities_get_distinct_names(entities, require_repo_prefix);
}

/// The leaf names of the entities, in order.
pub open spec fn leaves(entities: Seq<Entity>) -> Seq<Seq<char>> {
    Seq::new(entities.len(), |i: int| entities[i].leaf)
}

/// Where all leaf names differ and no prefix is asked for, every entity is
/// named by its leaf name alone.
pub proof fn law_unique_leaves_stay_bare(entities: Seq<Entity>)
    requires
        forall|i: int, j: int|
            0 <= i < j < entities.len() ==> (#[trigger] entities[i]).leaf != (
            #[trigger] entities[j]).leaf,
    ensures
        minimized(entities, false) == leaves(entities),
{
    let start = initial_depths(entities, false);
    let names = names_at(entities, start);
    assert forall|i: int| 0 <= i < entities.len() implies names[i] == entities[i].leaf by {
        assert(entities[i].chain.take(0).reverse().push(entities[i].leaf) =~= seq![
            entities[i].leaf,
        ]);
    }
    assert(names =~= leaves(entities));
    assert forall|i: int| 0 <= i < entities.len() implies !collides(names, i) by {
        if collides(names, i) {
            let j = choose|j: int| 0 <= j < names.len() && j != i && #[trigger] names[j] == names[i];
            if i < j {
                assert(entities[i].leaf != entities[j].leaf);
            } else {
                assert(entities[j].leaf != entities[i].leaf);
            }
        }
    }
    assert(escalated(entities, start) =~= start);
    assert(within_caps(entities, start));
    assert(settled(entities, start) == start);
}

/// Where a prefix is asked for, the name of every entity holds a `/`,
/// unless its chain is empty and its leaf name holds none.
pub proof fn law_required_prefix_shows(entities: Seq<Entity>)
    ensures
        minimized(entities, true).len() == entities.len(),
        forall|i: int|
            0 <= i < entities.len() ==> #[trigger] minimized(entities, true)[i].contains('/') == (
            entities[i].chain.len() > 0 || entities[i].leaf.contains('/')),
{
    let start = initial_depths(entities, true);
    lemma_settled_is_stable(entities, start);
    let rest = settled(entities, start);
    assert forall|i: int| 0 <= i < entities.len() implies #[trigger] minimized(
        entities,
        true,
    )[i].contains('/') == (entities[i].chain.len() > 0 || entities[i].leaf.contains('/')) by {
        if entities[i].chain.len() > 0 {
            assert(start[i] == 1);
            assert(rest[i] >= 1);
            let used = if rest[i] <= entities[i].chain.len() {
                rest[i] as int
            } else {
                entities[i].chain.len() as int
            };
            lemma_join_holds_sep(
                entities[i].chain.take(used).reverse().push(entities[i].leaf),
                '/',
            );
        } else {
            assert(rest[i] == 0);
            assert(entities[i].chain.take(0).reverse().push(entities[i].leaf) =~= seq![
                entities[i].leaf,
            ]);
            assert(minimized(entities, true)[i] == entities[i].leaf);
        }
    }
}

/// Two entities with one leaf name and one chain go through the rounds at
/// the same depth.
proof fn lemma_twins_stay_together(entities: Seq<Entity>, depths: Seq<nat>, i: int, j: int)
    requires
        within_caps(entities, depths),
        0 <= i < entities.len(),
        0 <= j < entities.len(),
        i != j,
        entities[i].leaf == entities[j].leaf,
        entities[i].chain == entities[j].chain,
        depths[i] == depths[j],
    ensures
        settled(entities, depths)[i] == settled(entities, depths)[j],
    decreases slack(entities, depths),
{
    if escalated(entities, depths) != depths {
        let names = names_at(entities, depths);
        assert(names[j] == names[i]);
        assert(collides(names, i));
        assert(collides(names, j));
        lemma_round_uses_slack(entities, depths);
        lemma_twins_stay_together(entities, escalated(entities, depths), i, j);
    }
}

/// Entities that cannot be told apart, having one leaf name and one chain,
/// end with one and the same name: the rounds come to rest even where
/// nothing can make all names differ.
pub proof fn law_duplicates_share_a_name(entities: Seq<Entity>, min_depth: bool, i: int, j: int)
    requires
        0 <= i < entities.len(),
        0 <= j < entities.len(),
        entities[i].leaf == entities[j].leaf,
        entities[i].chain == entities[j].chain,
    ensures
        minimized(entities, min_depth)[i] == minimized(entities, min_depth)[j],
{
    if i != j {
        let start = initial_depths(entities, min_depth);
        lemma_settled_is_stable(entities, start);
        lemma_twins_stay_together(entities, start, i, j);
    }
}

/// Two silos of one repository that have one name are shown under one and
/// the same name.
pub proof fn law_duplicate_silos_share_a_name(silos: Seq<Silo>, require_repo_prefix: bool, i: int, j: int)
    requires
        0 <= i < silos.len(),
        0 <= j < silos.len(),
        silos[i].name@ == silos[j].name@,
        silos[i].main_worktree@ == silos[j].main_worktree@,
    ensures
        minimized(entities_of(silos), require_repo_prefix)[i] == minimized(
            entities_of(silos),
            require_repo_prefix,
        )[j],
{
    law_duplicates_share_a_name(entities_of(silos), require_repo_prefix, i, j);
}

/// The picked positions are those of the flags that are set, each once, in
/// rising order.
pub proof fn law_picked_are_the_set_flags(flags: Seq<bool>)
    ensures
        forall|k: int|
            0 <= k < picked(flags).len() ==> 0 <= #[trigger] picked(flags)[k] < flags.len()
                && flags[picked(flags)[k]],
        forall|a: int, b: int|
            0 <= a < b < picked(flags).len() ==> picked(flags)[a] < picked(flags)[b],
        forall|i: int| 0 <= i < flags.len() && flags[i] ==> picked(flags).contains(i),
    decreases flags.len(),
{
    if flags.len() > 0 {
        let rest = flags.drop_last();
        law_picked_are_the_set_flags(rest);
        let before = picked(rest);
        let after = picked(flags);
        let last = flags.len() - 1;
        assert forall|k: int| 0 <= k < after.len() implies 0 <= #[trigger] after[k] < flags.len()
            && flags[after[k]] by {
            if k < before.len() {
                assert(after[k] == before[k]);
                assert(flags[before[k]] == rest[before[k]]);
            }
        }
        assert forall|a: int, b: int| 0 <= a < b < after.len() implies after[a] < after[b] by {
            assert(after[a] == before[a]);
            if b < before.len() {
                assert(after[b] == before[b]);
            }
        }
        assert forall|i: int| 0 <= i < flags.len() && flags[i] implies after.contains(i) by {
            if i < last {
                assert(rest[i]);
                assert(before.contains(i));
                let k = choose|k: int| 0 <= k < before.len() && before[k] == i;
                assert(after[k] == i);
            } else {
                assert(after[after.len() - 1] == i);
            }
        }
    }
}

/// Where exactly one flag is set, its position alone is picked.
pub proof fn lemma_picked_single(flags: Seq<bool>, at: int)
    requires
        0 <= at < flags.len(),
        flags[at],
        forall|j: int| 0 <= j < flags.len() && j != at ==> !flags[j],
    ensures
        picked(flags) == seq![at],
{
    law_picked_are_the_set_flags(flags);
    let found = picked(flags);
    assert(found.contains(at));
    assert forall|k: int| 0 <= k < found.len() implies found[k] == at by {
        assert(flags[found[k]]);
    }
    if found.len() > 1 {
        assert(found[0] < found[1]);
    }
    assert(found =~= seq![at]);
}

/// Where no flag is set, nothing is picked.
pub proof fn lemma_picked_none(flags: Seq<bool>)
    requires
        forall|j: int| 0 <= j < flags.len() ==> !flags[j],
    ensures
        picked(flags).len() == 0,
{
    law_picked_are_the_set_flags(flags);
    if picked(flags).len() > 0 {
        assert(flags[picked(flags)[0]]);
    }
}

/// A name that exactly one entity of the current scope has as its leaf name
/// means that entity, whatever other scopes hold and however the name is
/// qualified.
pub proof fn law_scope_comes_first(entities: Seq<Entity>, query: Seq<char>, scope: Seq<char>, at: int)
    requires
        0 <= at < entities.len(),
        entities[at].scope == scope,
        entities[at].leaf == split_on(query, '/').last(),
        forall|j: int|
            0 <= j < entities.len() && j != at ==> !((#[trigger] entities[j]).scope == scope
                && entities[j].leaf == split_on(query, '/').last()),
    ensures
        resolution(entities, query, Some(scope)) == Resolution::Found(at),
{
    lemma_picked_single(scope_flags(entities, scope, split_on(query, '/').last()), at);
}

/// Without a current scope, a query that the name of exactly one entity
/// answers to means that entity.
pub proof fn law_single_answer_is_found(entities: Seq<Entity>, query: Seq<char>, at: int)
    requires
        0 <= at < entities.len(),
        name_matches(minimized(entities, false)[at], query),
        forall|j: int|
            0 <= j < entities.len() && j != at ==> !name_matches(
                #[trigger] minimized(entities, false)[j],
                query,
            ),
    ensures
        resolution(entities, query, None) == Resolution::Found(at),
{
    lemma_picked_single(query_flags(minimized(entities, false), query), at);
}

/// Without a current scope, a query that no name answers to is not found.
pub proof fn law_no_answer_is_not_found(entities: Seq<Entity>, query: Seq<char>)
    requires
        forall|j: int|
            0 <= j < entities.len() ==> !name_matches(
                #[trigger] minimized(entities, false)[j],
                query,
            ),
    ensures
        resolution(entities, query, None) == Resolution::NotFound,
{
    lemma_picked_none(query_flags(minimized(entities, false), query));
}

/// Without a current scope, a query that the names of two entities answer
/// to is ambiguous, and the answer holds every entity whose name answers to
/// it, each once, in the order of the list.
pub proof fn law_several_answers_are_ambiguous(entities: Seq<Entity>, query: Seq<char>, first: int, second: int)
    requires
        0 <= first < second < entities.len(),
        name_matches(minimized(entities, false)[first], query),
        name_matches(minimized(entities, false)[second], query),
    ensures
        resolution(entities, query, None) == Resolution::Ambiguous(
            picked(query_flags(minimized(entities, false), query)),
        ),
        forall|i: int|
            0 <= i < entities.len() && name_matches(minimized(entities, false)[i], query)
                ==> picked(query_flags(minimized(entities, false), query)).contains(i),
{
    let flags = query_flags(minimized(entities, false), query);
    law_picked_are_the_set_flags(flags);
    let hits = picked(flags);
    assert(flags[first] && flags[second]);
    assert(hits.contains(first));
    assert(hits.contains(second));
    let a = choose|k: int| 0 <= k < hits.len() && hits[k] == first;
    let b = choose|k: int| 0 <= k < hits.len() && hits[k] == second;
    assert(a != b);
    assert(hits.len() >= 2);
    assert forall|i: int|
        0 <= i < entities.len() && name_matches(
            minimized(entities, false)[i],
            query,
        ) implies hits.contains(i) by {
        assert(flags[i]);
    }
}

} // verus!
