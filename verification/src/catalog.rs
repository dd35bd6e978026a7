//! The catalog cache: the mapping from challenge slug to authored spec,
//! validated at load and replaced wholesale by a reload.  Validation
//! checks the slug grammar, rejects duplicate slugs, and rejects two
//! static TCP exposures whose deterministic ports collide on one host.

use vstd::prelude::*;

use crate::addr::spec_static_port;
use crate::challenge::{Challenge, Container, DeploymentStrategy, ExposeType};
use crate::error::Error;
use crate::ident::{is_valid_id, spec_valid_id, str_eq};
use crate::numfmt::u16_to_dec;

verus! {

/// The host a challenge is pinned to, as a character sequence.
pub open spec fn spec_host_of(c: Challenge) -> Option<Seq<char>> {
    match c.host {
        Some(h) => Some(h@),
        None => None,
    }
}

/// One record of the static exposure table: where one static TCP
/// exposure lands, and which (slug, container) put it there.
pub struct ExposureRecord {
    pub host: Option<String>,
    pub port: u16,
    pub slug: String,
    pub ct: String,
}

/// The spec-level shape of an exposure record: host, computed port,
/// slug, container name.
pub open spec fn spec_rec_view(r: ExposureRecord) -> (
    Option<Seq<char>>,
    u16,
    Seq<char>,
    Seq<char>,
) {
    (
        match r.host {
            Some(h) => Some(h@),
            None => None,
        },
        r.port,
        r.slug@,
        r.ct@,
    )
}

/// The records of the static TCP exposures of one container's expose
/// list, in order.
pub open spec fn spec_recs_of_expose(
    slug: Seq<char>,
    bump: u64,
    host: Option<Seq<char>>,
    ct: Seq<char>,
    expose: Seq<(u16, ExposeType)>,
) -> Seq<(Option<Seq<char>>, u16, Seq<char>, Seq<char>)>
    decreases expose.len(),
{
    if expose.len() == 0 {
        Seq::empty()
    } else {
        let rest = spec_recs_of_expose(slug, bump, host, ct, expose.drop_last());
        if expose.last().1 == ExposeType::Tcp {
            rest.push((host, spec_static_port(slug, ct, expose.last().0, bump), slug, ct))
        } else {
            rest
        }
    }
}

/// The records contributed by a prefix of one challenge's container list.
pub open spec fn spec_recs_of_containers(
    slug: Seq<char>,
    bump: u64,
    host: Option<Seq<char>>,
    containers: Seq<(String, Container)>,
) -> Seq<(Option<Seq<char>>, u16, Seq<char>, Seq<char>)>
    decreases containers.len(),
{
    if containers.len() == 0 {
        Seq::empty()
    } else {
        spec_recs_of_containers(slug, bump, host, containers.drop_last()) + {
            let (ct, cd) = containers.last();
            match cd.expose {
                Some(e) => spec_recs_of_expose(slug, bump, host, ct@, e@),
                None => Seq::empty(),
            }
        }
    }
}

/// The records contributed by one challenge: empty unless it is static
/// and has containers.
pub open spec fn spec_recs_of_challenge(c: Challenge) -> Seq<
    (Option<Seq<char>>, u16, Seq<char>, Seq<char>),
> {
    if c.strategy == DeploymentStrategy::Static {
        match c.container {
            Some(v) => spec_recs_of_containers(c.id@, c.bump_seed, spec_host_of(c), v@),
            None => Seq::empty(),
        }
    } else {
        Seq::empty()
    }
}

/// The full static exposure table of a challenge list.
pub open spec fn spec_recs_of_challenges(challs: Seq<Challenge>) -> Seq<
    (Option<Seq<char>>, u16, Seq<char>, Seq<char>),
>
    decreases challs.len(),
{
    if challs.len() == 0 {
        Seq::empty()
    } else {
        spec_recs_of_challenges(challs.drop_last()) + spec_recs_of_challenge(challs.last())
    }
}

/// No two static TCP exposures land on the same (host, port).
pub open spec fn spec_no_port_collision(challs: Seq<Challenge>) -> bool {
    let recs = spec_recs_of_challenges(challs);
    forall|i: int, j: int|
        0 <= i < j < recs.len() ==> !((#[trigger] recs[i]).0 == (#[trigger] recs[j]).0 && recs[i].1
            == recs[j].1)
}

/// The error text of a rejected slug.
pub open spec fn spec_invalid_id_message(slug: Seq<char>) -> Seq<char> {
    "invalid challenge id "@ + slug
}

/// The error text of a repeated slug.
pub open spec fn spec_duplicate_message(slug: Seq<char>) -> Seq<char> {
    "duplicate challenge "@ + slug
}

/// The error text of a static port collision: it names the container
/// and challenge that lost, the computed port and host, the challenge
/// already holding the port, and suggests a bump seed.
pub open spec fn spec_collision_message(
    ct: Seq<char>,
    slug: Seq<char>,
    port: u16,
    host: Option<Seq<char>>,
    other: Seq<char>,
) -> Seq<char> {
    "static container "@ + ct + " for challenge "@ + slug + " wants to use port "@
        + crate::numfmt::spec_dec(port as int) + (match host {
        Some(h) => " on host "@ + h,
        None => Seq::<char>::empty(),
    }) + " which is already used by challenge "@ + other + ", try adding a bump_seed"@
}

/// Slugs are pairwise distinct.
pub open spec fn spec_slugs_unique(challs: Seq<Challenge>) -> bool {
    forall|i: int, j: int|
        0 <= i < j < challs.len() ==> (#[trigger] challs[i]).id@ != (#[trigger] challs[j]).id@
}

/// What a loadable challenge list must satisfy: every slug matches the
/// identifier grammar, slugs are unique, and no static TCP ports collide.
pub open spec fn spec_catalog_valid(challs: Seq<Challenge>) -> bool {
    &&& forall|i: int| 0 <= i < challs.len() ==> spec_valid_id((#[trigger] challs[i]).id@)
    &&& spec_slugs_unique(challs)
    &&& spec_no_port_collision(challs)
}

/// An immutable catalog snapshot: specs keyed by slug.
#[derive(Debug)]
pub struct Catalog {
    entries: Vec<(String, Challenge)>,
}

impl View for Catalog {
    type V = Seq<(String, Challenge)>;

    closed spec fn view(&self) -> Seq<(String, Challenge)> {
        self.entries@
    }
}

impl Catalog {
    /// Every key is its challenge's slug, and keys are unique.
    pub open spec fn wf(&self) -> bool {
        &&& forall|i: int| 0 <= i < self@.len() ==> (#[trigger] self@[i]).0@ == self@[i].1.id@
        &&& forall|i: int, j: int|
            0 <= i < j < self@.len() ==> (#[trigger] self@[i]).0@ != (#[trigger] self@[j]).0@
    }

    /// Whether a slug is present.
    pub open spec fn spec_has(&self, slug: Seq<char>) -> bool {
        exists|i: int| 0 <= i < self@.len() && (#[trigger] self@[i]).0@ == slug
    }

    /// An empty catalog.
    pub fn empty() -> (c: Self)
        ensures
            c@ =~= Seq::<(String, Challenge)>::empty(),
            c.wf(),
    {
        Catalog { entries: Vec::new() }
    }

    /// The number of entries.
    pub fn len(&self) -> (n: usize)
        ensures
            n == self@.len(),
    {
        self.entries.len()
    }

    /// The entry at an index.
    pub fn entry_at(&self, i: usize) -> (r: &(String, Challenge))
        requires
            i < self@.len(),
        ensures
            *r == self@[i as int],
    {
        &self.entries[i]
    }

    /// The spec for a slug, if the catalog has one.
    pub fn get(&self, slug: &str) -> (r: Option<&Challenge>)
        ensures
            match r {
                Some(c) => exists|i: int|
                    0 <= i < self@.len() && (#[trigger] self@[i]).0@ == slug@ && self@[i].1 == *c,
                None => !self.spec_has(slug@),
            },
    {
        let n = self.entries.len();
        let mut i: usize = 0;
        while i < n
            invariant
                i <= n,
                n == self@.len(),
                forall|j: int| 0 <= j < i ==> (#[trigger] self@[j]).0@ != slug@,
            decreases n - i,
        {
            if str_eq(self.entries[i].0.as_str(), slug) {
                return Some(&self.entries[i].1);
            }
            i = i + 1;
        }
        None
    }
}

/// The catalog cache: one current snapshot, swapped wholesale.
#[derive(Debug)]
pub struct CatalogCache {
    current: Catalog,
}

impl View for CatalogCache {
    type V = Seq<(String, Challenge)>;

    closed spec fn view(&self) -> Seq<(String, Challenge)> {
        self.current@
    }
}

impl CatalogCache {
    pub fn new(initial: Catalog) -> (c: Self)
        ensures
            c@ == initial@,
    {
        CatalogCache { current: initial }
    }

    /// The current snapshot.  A reader sees one whole catalog value.
    pub fn snapshot(&self) -> (r: &Catalog)
        ensures
            r@ == self@,
    {
        &self.current
    }

    /// Replaces the whole catalog in one step.
    pub fn replace(&mut self, next: Catalog) -> (prior: Catalog)
        ensures
            final(self)@ == next@,
            prior@ == old(self)@,
    {
        let mut next = next;
        core::mem::swap(&mut self.current, &mut next);
        next
    }
}

/// Law: a catalog swap is atomic.  Any snapshot taken around a swap is
/// the entire prior catalog or the entire new one; for every slug it
/// answers as the one or as the other, never as a mixture.
pub proof fn lemma_swap_atomic(prior: Catalog, next: Catalog, observed: Catalog)
    requires
        observed@ == prior@ || observed@ == next@,
    ensures
        (forall|s: Seq<char>| observed.spec_has(s) == prior.spec_has(s)) || (forall|s: Seq<char>|
            observed.spec_has(s) == next.spec_has(s)),
{
}

spec fn spec_opt_str_view(a: Option<String>) -> Option<Seq<char>> {
    match a {
        Some(s) => Some(s@),
        None => None,
    }
}

fn opt_str_eq(a: &Option<String>, b: &Option<String>) -> (r: bool)
    ensures
        r == (spec_opt_str_view(*a) == spec_opt_str_view(*b)),
{
    match (a, b) {
        (None, None) => true,
        (Some(x), Some(y)) => str_eq(x.as_str(), y.as_str()),
        _ => false,
    }
}

proof fn lemma_recs_expose_push(
    slug: Seq<char>,
    bump: u64,
    host: Option<Seq<char>>,
    ct: Seq<char>,
    expose: Seq<(u16, ExposeType)>,
    x: (u16, ExposeType),
)
    ensures
        spec_recs_of_expose(slug, bump, host, ct, expose.push(x)) == if x.1 == ExposeType::Tcp {
            spec_recs_of_expose(slug, bump, host, ct, expose).push(
                (host, spec_static_port(slug, ct, x.0, bump), slug, ct),
            )
        } else {
            spec_recs_of_expose(slug, bump, host, ct, expose)
        },
{
    assert(expose.push(x).drop_last() =~= expose);
    assert(expose.push(x).last() == x);
}

proof fn lemma_recs_containers_push(
    slug: Seq<char>,
    bump: u64,
    host: Option<Seq<char>>,
    containers: Seq<(String, Container)>,
    x: (String, Container),
)
    ensures
        spec_recs_of_containers(slug, bump, host, containers.push(x))
            == spec_recs_of_containers(slug, bump, host, containers) + match x.1.expose {
            Some(e) => spec_recs_of_expose(slug, bump, host, x.0@, e@),
            None => Seq::empty(),
        },
{
    assert(containers.push(x).drop_last() =~= containers);
    assert(containers.push(x).last() == x);
}

proof fn lemma_recs_challenges_push(challs: Seq<Challenge>, x: Challenge)
    ensures
        spec_recs_of_challenges(challs.push(x)) == spec_recs_of_challenges(challs)
            + spec_recs_of_challenge(x),
{
    assert(challs.push(x).drop_last() =~= challs);
    assert(challs.push(x).last() == x);
}

/// Builds the static exposure table of the challenge list: one record
/// per static TCP exposure, in order, carrying the computed (host, port)
/// pair and the (slug, container) that owns it.
fn build_exposure_table(challs: &Vec<Challenge>) -> (table: Vec<ExposureRecord>)
    ensures
        table@.map_values(|r: ExposureRecord| spec_rec_view(r)) =~= spec_recs_of_challenges(
            challs@,
        ),
{
    let mut table: Vec<ExposureRecord> = Vec::new();
    let n = challs.len();
    let mut i: usize = 0;
    while i < n
        invariant
            i <= n,
            n == challs@.len(),
            table@.map_values(|r: ExposureRecord| spec_rec_view(r)) =~= spec_recs_of_challenges(
                challs@.subrange(0, i as int),
            ),
        decreases n - i,
    {
        let c = &challs[i];
        let is_static = match c.strategy {
            DeploymentStrategy::Static => true,
            DeploymentStrategy::Instanced => false,
        };
        if is_static {
            match &c.container {
                None => {
                    proof {
                        lemma_recs_challenges_push(challs@.subrange(0, i as int), challs@[i as int]);
                        assert(challs@.subrange(0, i as int).push(challs@[i as int])
                            =~= challs@.subrange(0, i as int + 1));
                    }
                },
                Some(containers) => {
                    let m = containers.len();
                    let mut ci: usize = 0;
                    while ci < m
                        invariant
                            ci <= m,
                            m == containers@.len(),
                            challs@[i as int].container == Some(*containers),
                            challs@[i as int].strategy == DeploymentStrategy::Static,
                            *c == challs@[i as int],
                            i < challs@.len(),
                            table@.map_values(|r: ExposureRecord| spec_rec_view(r))
                                =~= spec_recs_of_challenges(challs@.subrange(0, i as int))
                                + spec_recs_of_containers(
                                challs@[i as int].id@,
                                challs@[i as int].bump_seed,
                                spec_host_of(challs@[i as int]),
                                containers@.subrange(0, ci as int),
                            ),
                        decreases m - ci,
                    {
                        let (ct, cd) = &containers[ci];
                        match &cd.expose {
                            None => {
                                proof {
                                    lemma_recs_containers_push(
                                        challs@[i as int].id@,
                                        challs@[i as int].bump_seed,
                                        spec_host_of(challs@[i as int]),
                                        containers@.subrange(0, ci as int),
                                        containers@[ci as int],
                                    );
                                    assert(containers@.subrange(0, ci as int).push(
                                        containers@[ci as int],
                                    ) =~= containers@.subrange(0, ci as int + 1));
                                }
                            },
                            Some(expose) => {
                                let k = expose.len();
                                let mut ei: usize = 0;
                                while ei < k
                                    invariant
                                        ei <= k,
                                        k == expose@.len(),
                                        i < challs@.len(),
                                        ci < containers@.len(),
                                        challs@[i as int].container == Some(*containers),
                                        challs@[i as int].strategy == DeploymentStrategy::Static,
                                        *c == challs@[i as int],
                                        containers@[ci as int].1.expose == Some(*expose),
                                        containers@[ci as int].0 == *ct,
                                        table@.map_values(|r: ExposureRecord| spec_rec_view(r))
                                            =~= spec_recs_of_challenges(
                                            challs@.subrange(0, i as int),
                                        ) + spec_recs_of_containers(
                                            challs@[i as int].id@,
                                            challs@[i as int].bump_seed,
                                            spec_host_of(challs@[i as int]),
                                            containers@.subrange(0, ci as int),
                                        ) + spec_recs_of_expose(
                                            challs@[i as int].id@,
                                            challs@[i as int].bump_seed,
                                            spec_host_of(challs@[i as int]),
                                            ct@,
                                            expose@.subrange(0, ei as int),
                                        ),
                                    decreases k - ei,
                                {
                                    let (p, t) = expose[ei];
                                    let is_tcp = match t {
                                        ExposeType::Tcp => true,
                                        ExposeType::Http => false,
                                    };
                                    let ghost before = table@;
                                    if is_tcp {
                                        let host_port = crate::addr::calculate_static_tcp_port(
                                            c.id.as_str(),
                                            ct.as_str(),
                                            p,
                                            c.bump_seed,
                                        );
                                        let host = match &c.host {
                                            Some(h) => Some(h.clone()),
                                            None => None,
                                        };
                                        let rec = ExposureRecord {
                                            host,
                                            port: host_port,
                                            slug: c.id.clone(),
                                            ct: ct.clone(),
                                        };
                                        proof {
                                            assert(spec_rec_view(rec) == (
                                                spec_host_of(challs@[i as int]),
                                                spec_static_port(
                                                    challs@[i as int].id@,
                                                    ct@,
                                                    expose@[ei as int].0,
                                                    challs@[i as int].bump_seed,
                                                ),
                                                challs@[i as int].id@,
                                                ct@,
                                            ));
                                        }
                                        table.push(rec);
                                        proof {
                                            assert(table@.map_values(
                                                |r: ExposureRecord| spec_rec_view(r),
                                            ) =~= before.map_values(
                                                |r: ExposureRecord| spec_rec_view(r),
                                            ).push(spec_rec_view(table@.last())));
                                        }
                                    }
                                    proof {
                                        lemma_recs_expose_push(
                                            challs@[i as int].id@,
                                            challs@[i as int].bump_seed,
                                            spec_host_of(challs@[i as int]),
                                            ct@,
                                            expose@.subrange(0, ei as int),
                                            expose@[ei as int],
                                        );
                                        assert(expose@.subrange(0, ei as int).push(
                                            expose@[ei as int],
                                        ) =~= expose@.subrange(0, ei as int + 1));
                                    }
                                    ei = ei + 1;
                                }
                                proof {
                                    assert(expose@.subrange(0, k as int) =~= expose@);
                                    lemma_recs_containers_push(
                                        challs@[i as int].id@,
                                        challs@[i as int].bump_seed,
                                        spec_host_of(challs@[i as int]),
                                        containers@.subrange(0, ci as int),
                                        containers@[ci as int],
                                    );
                                    assert(containers@.subrange(0, ci as int).push(
                                        containers@[ci as int],
                                    ) =~= containers@.subrange(0, ci as int + 1));
                                }
                            },
                        }
                        ci = ci + 1;
                    }
                    proof {
                        assert(containers@.subrange(0, m as int) =~= containers@);
                        lemma_recs_challenges_push(challs@.subrange(0, i as int), challs@[i as int]);
                        assert(challs@.subrange(0, i as int).push(challs@[i as int])
                            =~= challs@.subrange(0, i as int + 1));
                    }
                },
            }
        } else {
            proof {
                lemma_recs_challenges_push(challs@.subrange(0, i as int), challs@[i as int]);
                assert(challs@.subrange(0, i as int).push(challs@[i as int]) =~= challs@.subrange(
                    0,
                    i as int + 1,
                ));
            }
        }
        i = i + 1;
    }
    proof {
        assert(challs@.subrange(0, n as int) =~= challs@);
    }
    table
}

/// What a load rejection says: the invalid-slug text for some slug the
/// grammar refuses, the duplicate text for some repeated slug, or the
/// collision text for some two static TCP exposures landing on one
/// (host, port).
pub open spec fn spec_rejection_message(challs: Seq<Challenge>, message: Seq<char>) -> bool {
    ||| exists|i: int|
        0 <= i < challs.len() && !spec_valid_id((#[trigger] challs[i]).id@) && message
            == spec_invalid_id_message(challs[i].id@)
    ||| exists|i: int, j: int|
        0 <= i < j < challs.len() && (#[trigger] challs[i]).id@ == (#[trigger] challs[j]).id@
            && message == spec_duplicate_message(challs[j].id@)
    ||| exists|a: int, b: int|
        #![trigger spec_recs_of_challenges(challs)[a], spec_recs_of_challenges(challs)[b]]
        {
            let recs = spec_recs_of_challenges(challs);
            &&& 0 <= a < b < recs.len()
            &&& recs[a].0 == recs[b].0
            &&& recs[a].1 == recs[b].1
            &&& message == spec_collision_message(
                recs[b].3,
                recs[b].2,
                recs[b].1,
                recs[b].0,
                recs[a].2,
            )
        }
}

/// Validates a challenge list and builds the catalog from it, keyed by
/// slug.  Succeeds exactly when every slug matches the identifier
/// grammar, no slug repeats, and no two static TCP exposures compute the
/// same port on the same host; every failure is a validation error whose
/// message names the offending slug — for a collision, the container and
/// both slugs, the computed port and host, and the bump-seed hint.
pub fn build_catalog(challs: Vec<Challenge>) -> (r: Result<Catalog, Error>)
    ensures
        match r {
            Ok(cat) => {
                &&& spec_catalog_valid(challs@)
                &&& cat.wf()
                &&& cat@.len() == challs@.len()
                &&& forall|i: int| 0 <= i < challs@.len() ==> (#[trigger] cat@[i]).1 == challs@[i]
                &&& forall|i: int| 0 <= i < challs@.len() ==> (#[trigger] cat@[i]).0@ == challs@[i].id@
            },
            Err(e) => {
                &&& !spec_catalog_valid(challs@)
                &&& (e matches Error::Validation { message } && spec_rejection_message(
                    challs@,
                    message@,
                ))
            },
        },
{
    let n = challs.len();

    let mut i: usize = 0;
    while i < n
        invariant
            i <= n,
            n == challs@.len(),
            forall|j: int| 0 <= j < i ==> spec_valid_id((#[trigger] challs@[j]).id@),
        decreases n - i,
    {
        if !is_valid_id(challs[i].id.as_str()) {
            let mut message = String::from_str("invalid challenge id ");
            message.append(challs[i].id.as_str());
            proof {
                assert(message@ == spec_invalid_id_message(challs@[i as int].id@));
            }
            return Err(Error::Validation { message });
        }
        i = i + 1;
    }

    let mut i: usize = 0;
    while i < n
        invariant
            i <= n,
            n == challs@.len(),
            spec_slugs_unique(challs@.subrange(0, i as int)),
        decreases n - i,
    {
        let mut j: usize = 0;
        while j < i
            invariant
                j <= i < n,
                n == challs@.len(),
                forall|k: int| 0 <= k < j ==> (#[trigger] challs@[k]).id@ != challs@[i as int].id@,
            decreases i - j,
        {
            if str_eq(challs[j].id.as_str(), challs[i].id.as_str()) {
                let mut message = String::from_str("duplicate challenge ");
                message.append(challs[i].id.as_str());
                proof {
                    assert(message@ == spec_duplicate_message(challs@[i as int].id@));
                }
                return Err(Error::Validation { message });
            }
            j = j + 1;
        }
        proof {
            assert forall|a: int, b: int| 0 <= a < b < i + 1 implies (#[trigger] challs@[a]).id@
                != (#[trigger] challs@[b]).id@ by {
                if b < i {
                    assert(challs@.subrange(0, i as int)[a] == challs@[a]);
                    assert(challs@.subrange(0, i as int)[b] == challs@[b]);
                }
            }
            assert(spec_slugs_unique(challs@.subrange(0, i as int + 1)));
        }
        i = i + 1;
    }
    proof {
        assert(challs@.subrange(0, n as int) =~= challs@);
    }

    let table = build_exposure_table(&challs);
    let ghost pairs = spec_recs_of_challenges(challs@);
    let tn = table.len();
    let mut i: usize = 0;
    while i < tn
        invariant
            i <= tn,
            tn == table@.len(),
            pairs == spec_recs_of_challenges(challs@),
            table@.map_values(|r: ExposureRecord| spec_rec_view(r)) =~= pairs,
            forall|a: int, b: int|
                0 <= a < b < i ==> !((#[trigger] pairs[a]).0 == (#[trigger] pairs[b]).0
                    && pairs[a].1 == pairs[b].1),
        decreases tn - i,
    {
        let mut j: usize = 0;
        while j < i
            invariant
                j <= i < tn,
                tn == table@.len(),
                pairs == spec_recs_of_challenges(challs@),
                table@.map_values(|r: ExposureRecord| spec_rec_view(r)) =~= pairs,
                forall|k: int|
                    0 <= k < j ==> !((#[trigger] pairs[k]).0 == pairs[i as int].0 && pairs[k].1
                        == pairs[i as int].1),
            decreases i - j,
        {
            if table[j].port == table[i].port && opt_str_eq(&table[j].host, &table[i].host) {
                let mut message = String::from_str("static container ");
                message.append(table[i].ct.as_str());
                message.append(" for challenge ");
                message.append(table[i].slug.as_str());
                message.append(" wants to use port ");
                message.append(u16_to_dec(table[i].port).as_str());
                match &table[i].host {
                    Some(h) => {
                        message.append(" on host ");
                        message.append(h.as_str());
                    },
                    None => (),
                }
                message.append(" which is already used by challenge ");
                message.append(table[j].slug.as_str());
                message.append(", try adding a bump_seed");
                proof {
                    assert(pairs[j as int] == spec_rec_view(table@[j as int]));
                    assert(pairs[i as int] == spec_rec_view(table@[i as int]));
                    assert(pairs[j as int].0 == pairs[i as int].0 && pairs[j as int].1
                        == pairs[i as int].1);
                    assert(message@ == spec_collision_message(
                        pairs[i as int].3,
                        pairs[i as int].2,
                        pairs[i as int].1,
                        pairs[i as int].0,
                        pairs[j as int].2,
                    ));
                    assert(!spec_no_port_collision(challs@)) by {
                        let p2 = spec_recs_of_challenges(challs@);
                        let a = j as int;
                        let b = i as int;
                        assert(p2 == pairs);
                        assert(0 <= a < b < p2.len() && p2[a].0 == p2[b].0 && p2[a].1 == p2[b].1);
                    }
                }
                return Err(Error::Validation { message });
            }
            j = j + 1;
        }
        proof {
            assert(spec_rec_view(table@[i as int]) == pairs[i as int]);
            assert forall|a: int, b: int| 0 <= a < b < i + 1 implies !((#[trigger] pairs[a]).0 == (
            #[trigger] pairs[b]).0 && pairs[a].1 == pairs[b].1) by {}
        }
        i = i + 1;
    }
    proof {
        assert(spec_no_port_collision(challs@));
    }

    let mut remaining = challs;
    let ghost orig = remaining@;
    let mut entries: Vec<(String, Challenge)> = Vec::new();
    while remaining.len() > 0
        invariant
            entries@.len() + remaining@.len() == orig.len(),
            remaining@ =~= orig.subrange(entries@.len() as int, orig.len() as int),
            forall|i: int|
                0 <= i < entries@.len() ==> (#[trigger] entries@[i]).1 == orig[i] && entries@[i].0@
                    == orig[i].id@,
        decreases remaining@.len(),
    {
        let ghost done = entries@.len() as int;
        let c = remaining.remove(0);
        let key = c.id.clone();
        entries.push((key, c));
        proof {
            assert(orig.subrange(done, orig.len() as int)[0] == orig[done]);
        }
    }
    let cat = Catalog { entries };
    proof {
        assert(orig.subrange(0, orig.len() as int) =~= orig);
        assert forall|i: int, j: int| 0 <= i < j < cat@.len() implies (#[trigger] cat@[i]).0@ != (
        #[trigger] cat@[j]).0@ by {
            assert(cat@[i].0@ == orig[i].id@);
            assert(cat@[j].0@ == orig[j].id@);
        }
    }
    Ok(cat)
}

} // verus!
