//! Local attachment serving: resolving a requested attachment path under
//! the configured base directory.  Paths are modelled as strings over a
//! component grammar: components are the maximal `/`-separated segments,
//! with empty and `.` segments dropped; a path is absolute when it opens
//! with `/`.  Joining a relative path appends it under the base; joining
//! an absolute path replaces the base.  The path check therefore admits
//! every relative request, and an absolute request only when the base is
//! itself absolute — the replaced path cannot otherwise open with the
//! base's root — and its components open with the base's.

use vstd::prelude::*;

use crate::ident::str_eq;

verus! {

/// Whether a path opens with the separator.
pub open spec fn spec_is_absolute(p: Seq<char>) -> bool {
    p.len() > 0 && p[0] == '/'
}

/// The raw `/`-separated segments of a path, with `cur` the segment
/// under construction.
pub open spec fn spec_split_acc(p: Seq<char>, cur: Seq<char>) -> Seq<Seq<char>>
    decreases p.len(),
{
    if p.len() == 0 {
        seq![cur]
    } else if p[0] == '/' {
        seq![cur] + spec_split_acc(p.subrange(1, p.len() as int), Seq::empty())
    } else {
        spec_split_acc(p.subrange(1, p.len() as int), cur.push(p[0]))
    }
}

/// The raw segments that survive normalization: empty segments and `.`
/// are dropped.
pub open spec fn spec_keep(segs: Seq<Seq<char>>) -> Seq<Seq<char>>
    decreases segs.len(),
{
    if segs.len() == 0 {
        Seq::empty()
    } else {
        spec_keep(segs.drop_last()) + if segs.last().len() > 0 && segs.last() != "."@ {
            seq![segs.last()]
        } else {
            Seq::empty()
        }
    }
}

/// The components of a path.
pub open spec fn spec_components(p: Seq<char>) -> Seq<Seq<char>> {
    spec_keep(spec_split_acc(p, Seq::empty()))
}

/// Whether the components of `a` open every path in `b`.
pub open spec fn spec_prefix_of(a: Seq<Seq<char>>, b: Seq<Seq<char>>) -> bool {
    a.len() <= b.len() && forall|i: int| 0 <= i < a.len() ==> #[trigger] b[i] == a[i]
}

/// Joining `p` under `b`: an absolute `p` replaces `b`; a relative one
/// is appended, with a separator unless `b` already ends in one or is
/// empty.
pub open spec fn spec_join(b: Seq<char>, p: Seq<char>) -> Seq<char> {
    if spec_is_absolute(p) {
        p
    } else if b.len() == 0 {
        p
    } else if b.last() == '/' {
        b + p
    } else {
        b + "/"@ + p
    }
}

proof fn lemma_keep_push(segs: Seq<Seq<char>>, x: Seq<char>)
    ensures
        spec_keep(segs.push(x)) == spec_keep(segs) + if x.len() > 0 && x != "."@ {
            seq![x]
        } else {
            Seq::<Seq<char>>::empty()
        },
{
    assert(segs.push(x).drop_last() =~= segs);
    assert(segs.push(x).last() == x);
}

/// Splits a path into its components.
fn components(p: &str) -> (r: Vec<String>)
    ensures
        r@.map_values(|s: String| s@) =~= spec_components(p@),
{
    let n = p.unicode_len();
    let mut raw: Vec<String> = Vec::new();
    let mut start: usize = 0;
    let mut i: usize = 0;
    proof {
        assert(p@.subrange(0, p@.len() as int) =~= p@);
        assert(p@.subrange(0, 0) =~= Seq::<char>::empty());
    }
    while i < n
        invariant
            start <= i <= n,
            n == p@.len(),
            spec_split_acc(p@, Seq::empty()) =~= raw@.map_values(|s: String| s@)
                + spec_split_acc(
                p@.subrange(i as int, p@.len() as int),
                p@.subrange(start as int, i as int),
            ),
        decreases n - i,
    {
        let c = p.get_char(i);
        let ghost suffix = p@.subrange(i as int, p@.len() as int);
        proof {
            assert(suffix[0] == p@[i as int]);
            assert(suffix.subrange(1, suffix.len() as int) =~= p@.subrange(
                i as int + 1,
                p@.len() as int,
            ));
            assert(p@.subrange(start as int, i as int).push(p@[i as int]) =~= p@.subrange(
                start as int,
                i as int + 1,
            ));
            assert(p@.subrange(i as int + 1, i as int + 1) =~= Seq::<char>::empty());
        }
        if c == '/' {
            raw.push(p.substring_char(start, i).to_owned());
            start = i + 1;
        }
        i = i + 1;
    }
    proof {
        assert(p@.subrange(n as int, p@.len() as int) =~= Seq::<char>::empty());
    }
    let ghost prevmap = raw@.map_values(|s: String| s@);
    raw.push(p.substring_char(start, n).to_owned());
    proof {
        assert(raw@.map_values(|s: String| s@) =~= prevmap.push(raw@.last()@));
        assert(raw@.map_values(|s: String| s@) =~= spec_split_acc(p@, Seq::empty()));
    }

    let mut out: Vec<String> = Vec::new();
    let m = raw.len();
    let mut k: usize = 0;
    while k < m
        invariant
            k <= m,
            m == raw@.len(),
            out@.map_values(|s: String| s@) =~= spec_keep(
                raw@.map_values(|s: String| s@).subrange(0, k as int),
            ),
        decreases m - k,
    {
        let ghost rawv = raw@.map_values(|s: String| s@);
        let seg = &raw[k];
        let keep = seg.as_str().unicode_len() > 0 && !str_eq(seg.as_str(), ".");
        let ghost before = out@;
        if keep {
            out.push(seg.clone());
        }
        proof {
            reveal_strlit(".");
            lemma_keep_push(rawv.subrange(0, k as int), rawv[k as int]);
            assert(rawv.subrange(0, k as int).push(rawv[k as int]) =~= rawv.subrange(
                0,
                k as int + 1,
            ));
            if keep {
                assert(out@.map_values(|s: String| s@) =~= before.map_values(|s: String| s@).push(
                    out@.last()@,
                ));
            }
        }
        k = k + 1;
    }
    proof {
        let rawv = raw@.map_values(|s: String| s@);
        assert(rawv.subrange(0, m as int) =~= rawv);
    }
    out
}

/// Whether the components of `base` open the components of `p`.
fn components_prefix(base: &str, p: &str) -> (r: bool)
    ensures
        r == spec_prefix_of(spec_components(base@), spec_components(p@)),
{
    let b = components(base);
    let q = components(p);
    let nb = b.len();
    if nb > q.len() {
        proof {
            assert(spec_components(base@).len() == b@.map_values(|s: String| s@).len());
            assert(spec_components(p@).len() == q@.map_values(|s: String| s@).len());
        }
        return false;
    }
    let mut i: usize = 0;
    while i < nb
        invariant
            i <= nb,
            nb == b@.len(),
            nb <= q@.len(),
            b@.map_values(|s: String| s@) =~= spec_components(base@),
            q@.map_values(|s: String| s@) =~= spec_components(p@),
            forall|j: int| 0 <= j < i ==> #[trigger] q@[j]@ == b@[j]@,
        decreases nb - i,
    {
        if !str_eq(b[i].as_str(), q[i].as_str()) {
            proof {
                assert(spec_components(base@)[i as int] == b@.map_values(|s: String| s@)[i as int]);
                assert(spec_components(p@)[i as int] == q@.map_values(|s: String| s@)[i as int]);
            }
            return false;
        }
        i = i + 1;
    }
    true
}

/// Relies on std::path::Path::exists: whether something answers to this
/// path on disk right now; no two calls need agree.
#[verifier::external_body]
fn path_exists(p: &str) -> bool {
    std::path::Path::new(p).exists()
}

/// Serves attachments out of a local directory, when one is configured.
pub struct AttachmentService {
    pub attachments_path: Option<String>,
    pub attachments_serving_url: String,
}

impl AttachmentService {
    /// Builds the service from the configured directory and serving
    /// URL; without a configured URL, downloads are served under
    /// `{cors_origin}/api/attachments/download`.
    pub fn new(
        attachments_directory: Option<String>,
        serving_url: Option<String>,
        cors_origin: &str,
    ) -> (s: Self)
        ensures
            s.attachments_path == attachments_directory,
            match serving_url {
                Some(u) => s.attachments_serving_url == u,
                None => s.attachments_serving_url@ == cors_origin@
                    + "/api/attachments/download"@,
            },
    {
        let url = match serving_url {
            Some(u) => u,
            None => {
                let mut u = cors_origin.to_owned();
                u.append("/api/attachments/download");
                u
            },
        };
        AttachmentService { attachments_path: attachments_directory, attachments_serving_url: url }
    }

    /// Whether local attachment serving is configured at all.
    pub fn is_enabled(&self) -> (r: bool)
        ensures
            r == (self.attachments_path is Some),
    {
        self.attachments_path.is_some()
    }

    /// Whether a requested path stays under the base directory: with no
    /// base it never does; a relative path always does (joining keeps it
    /// under the base); an absolute path replaces the base on joining,
    /// so it passes only when the base is itself absolute and the
    /// path's components open with the base's.
    pub open spec fn spec_check_path(&self, p: Seq<char>) -> bool {
        match self.attachments_path {
            None => false,
            Some(b) => !spec_is_absolute(p) || (spec_is_absolute(b@) && spec_prefix_of(
                spec_components(b@),
                spec_components(p),
            )),
        }
    }

    pub fn check_path(&self, path: &str) -> (r: bool)
        ensures
            r == self.spec_check_path(path@),
    {
        match &self.attachments_path {
            None => false,
            Some(b) => {
                let absolute = path.unicode_len() > 0 && path.get_char(0) == '/';
                if !absolute {
                    true
                } else {
                    let base_absolute = b.as_str().unicode_len() > 0 && b.as_str().get_char(0)
                        == '/';
                    base_absolute && components_prefix(b.as_str(), path)
                }
            },
        }
    }

    /// The requested path joined under the base.
    pub fn get_attachment_path(&self, path: &str) -> (r: Option<String>)
        ensures
            match r {
                Some(j) => self.attachments_path matches Some(b) && j@ == spec_join(b@, path@),
                None => self.attachments_path is None,
            },
    {
        match &self.attachments_path {
            None => None,
            Some(b) => {
                let n = path.unicode_len();
                let absolute = n > 0 && path.get_char(0) == '/';
                if absolute {
                    Some(path.to_owned())
                } else if b.as_str().unicode_len() == 0 {
                    Some(path.to_owned())
                } else {
                    let bn = b.as_str().unicode_len();
                    let mut j = b.clone();
                    if b.as_str().get_char(bn - 1) != '/' {
                        j.append("/");
                    }
                    j.append(path);
                    Some(j)
                }
            },
        }
    }

    /// Whether a requested path is servable: it stays under the base and
    /// something answers to it on disk.  A path the check rejects is
    /// never servable; what the disk holds is not specified here.
    pub fn check_path_servable(&self, path: &str) -> (r: bool)
        ensures
            r ==> self.spec_check_path(path@),
            !self.spec_check_path(path@) ==> !r,
    {
        if !self.check_path(path) {
            return false;
        }
        match self.get_attachment_path(path) {
            None => false,
            Some(j) => path_exists(j.as_str()),
        }
    }
}

} // verus!
