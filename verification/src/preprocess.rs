//! Resolution of a root shader file into one compilable source text.
//!
//! An include directive is a line of the form `#include "other.frag"`; the
//! named path is taken relative to the directory of the file holding the
//! line.  Expansion is textual and recursive: the directive line is replaced
//! by the fully expanded contents of the target.  A chain-scoped visiting
//! list detects cycles, and every file touched by a resolution is recorded,
//! in first-visited order without duplicates, as the dependency list to
//! watch.

use crate::bytes::clone_bytes;
use crate::bytes::contains_bytes;
use crate::bytes::dv;
use crate::bytes::lemma_dv_push;
use crate::bytes::push_all;
use crate::bytes::push_unique;
use crate::bytes::sp_push_unique;
use crate::bytes::subrange_vec;
use crate::errors::ErrV;
use crate::errors::ShaderError;
use crate::store::FileData;
use crate::store::FileDataV;
use crate::store::FileEntryV;
use crate::store::FileStore;
use crate::store::sp_lookup;
use vstd::prelude::*;

verus! {

/// The first position at or after `i` holding `b`, if any.
pub open spec fn sp_find_byte(s: Seq<u8>, b: u8, i: int) -> Option<int>
    decreases s.len() - i,
{
    if i >= s.len() {
        None
    } else if s[i] == b {
        Some(i)
    } else {
        sp_find_byte(s, b, i + 1)
    }
}

pub proof fn lemma_find_byte(s: Seq<u8>, b: u8, i: int)
    requires
        0 <= i,
    ensures
        match sp_find_byte(s, b, i) {
            Some(j) => i <= j < s.len() && s[j] == b && (forall|k: int| i <= k < j ==> s[k] != b),
            None => forall|k: int| i <= k < s.len() ==> s[k] != b,
        },
    decreases s.len() - i,
{
    if i < s.len() && s[i] != b {
        lemma_find_byte(s, b, i + 1);
    }
}

/// The last position before `n` holding a path separator, if any.
pub open spec fn sp_rfind_slash(s: Seq<u8>, n: int) -> Option<int>
    decreases n,
{
    if n <= 0 {
        None
    } else if s[n - 1] == 47u8 {
        Some(n - 1)
    } else {
        sp_rfind_slash(s, n - 1)
    }
}

/// The directory part of a path, up to and including its last separator;
/// empty when the path has none.
pub open spec fn sp_dirname(p: Seq<u8>) -> Seq<u8> {
    match sp_rfind_slash(p, p.len() as int) {
        None => Seq::empty(),
        Some(k) => p.subrange(0, k + 1),
    }
}

/// The ten bytes of `#include "`.
pub open spec fn sp_include_prefix() -> Seq<u8> {
    seq![35u8, 105u8, 110u8, 99u8, 108u8, 117u8, 100u8, 101u8, 32u8, 34u8]
}

/// Whether the line is an include directive: the prefix, then a path, then a
/// closing quote.
pub open spec fn sp_is_include(line: Seq<u8>) -> bool {
    &&& line.len() >= 10
    &&& line.subrange(0, 10) == sp_include_prefix()
    &&& sp_find_byte(line, 34u8, 10) is Some
}

pub open spec fn sp_quote_index(line: Seq<u8>) -> int {
    match sp_find_byte(line, 34u8, 10) {
        Some(j) => j,
        None => 10,
    }
}

/// The path named by an include directive, relative to the including file.
pub open spec fn sp_include_target(line: Seq<u8>) -> Seq<u8> {
    line.subrange(10, sp_quote_index(line))
}

/// The lines of a source text, split at newline bytes; a trailing newline
/// closes the last line rather than opening an empty one.
pub open spec fn sp_split_from(content: Seq<u8>, i: int) -> Seq<Seq<u8>>
    decreases content.len() - i,
{
    if i >= content.len() {
        Seq::empty()
    } else {
        match sp_find_byte(content, 10u8, i) {
            None => seq![content.subrange(i, content.len() as int)],
            // the range guard keeps the recursion well-founded on its own;
            // a found position always lies in it
            Some(j) => if i <= j < content.len() {
                seq![content.subrange(i, j)] + sp_split_from(content, j + 1)
            } else {
                Seq::empty()
            },
        }
    }
}

pub open spec fn sp_split_lines(content: Seq<u8>) -> Seq<Seq<u8>> {
    sp_split_from(content, 0)
}

/// The declarations the preprocessor puts in front of the expanded text.
/// With camera integration on, the host supplies the transform through a
/// dedicated uniform; with it off, nothing is injected and the shader owns
/// its camera math.
pub open spec fn sp_feature_block(use_camera_integration: bool) -> Seq<u8> {
    if use_camera_integration {
        // uniform mat4 sbCameraTransform;\n
        seq![
            117u8, 110u8, 105u8, 102u8, 111u8, 114u8, 109u8, 32u8, 109u8, 97u8, 116u8, 52u8,
            32u8, 115u8, 98u8, 67u8, 97u8, 109u8, 101u8, 114u8, 97u8, 84u8, 114u8, 97u8, 110u8,
            115u8, 102u8, 111u8, 114u8, 109u8, 59u8, 10u8,
        ]
    } else {
        Seq::empty()
    }
}

/// The cause recorded when a root path is not in the store at all.
pub open spec fn sp_missing_cause() -> Seq<u8> {
    // not found
    seq![110u8, 111u8, 116u8, 32u8, 102u8, 111u8, 117u8, 110u8, 100u8]
}

/// What one expansion step leaves behind: the dependency list grown so far,
/// and the expanded text or the first error.
pub struct ExpandV {
    pub deps: Seq<Seq<u8>>,
    pub out: Result<Seq<u8>, ErrV>,
}

/// Expands `lines[i..]`, with `dir` the directory of the file the lines come
/// from and `visiting` the chain of files currently being expanded.
pub open spec fn sp_expand_lines(
    store: Seq<FileEntryV>,
    lines: Seq<Seq<u8>>,
    i: int,
    dir: Seq<u8>,
    visiting: Seq<Seq<u8>>,
    deps: Seq<Seq<u8>>,
    fuel: nat,
) -> ExpandV
    decreases fuel, 1int, lines.len() - i,
{
    if i >= lines.len() {
        ExpandV { deps, out: Ok(Seq::empty()) }
    } else {
        let line = lines[i];
        if sp_is_include(line) {
            let target = dir + sp_include_target(line);
            let r1 = sp_expand_include(store, target, visiting, deps, fuel);
            match r1.out {
                Err(e) => ExpandV { deps: r1.deps, out: Err(e) },
                Ok(txt) => {
                    let r2 = sp_expand_lines(store, lines, i + 1, dir, visiting, r1.deps, fuel);
                    match r2.out {
                        Err(e) => ExpandV { deps: r2.deps, out: Err(e) },
                        Ok(rest) => ExpandV { deps: r2.deps, out: Ok(txt + rest) },
                    }
                },
            }
        } else {
            let r2 = sp_expand_lines(store, lines, i + 1, dir, visiting, deps, fuel);
            match r2.out {
                Err(e) => ExpandV { deps: r2.deps, out: Err(e) },
                Ok(rest) => ExpandV { deps: r2.deps, out: Ok(line.push(10u8) + rest) },
            }
        }
    }
}

/// Expands one include target: records it as a dependency, rejects cycles
/// against the visiting chain, and inlines the target's expanded lines.
pub open spec fn sp_expand_include(
    store: Seq<FileEntryV>,
    target: Seq<u8>,
    visiting: Seq<Seq<u8>>,
    deps: Seq<Seq<u8>>,
    fuel: nat,
) -> ExpandV
    decreases fuel, 0int, 0int,
{
    let deps1 = sp_push_unique(deps, target);
    if visiting.contains(target) {
        ExpandV { deps: deps1, out: Err(ErrV::IncludeCycle { path: target }) }
    } else {
        match sp_lookup(store, target) {
            None => ExpandV { deps: deps1, out: Err(ErrV::IncludeNotFound { path: target }) },
            Some(FileDataV::Unreadable(cause)) => ExpandV {
                deps: deps1,
                out: Err(ErrV::SourceRead { path: target, cause }),
            },
            Some(FileDataV::Text(content)) => {
                if fuel == 0 {
                    ExpandV { deps: deps1, out: Err(ErrV::IncludeCycle { path: target }) }
                } else {
                    sp_expand_lines(
                        store,
                        sp_split_lines(content),
                        0,
                        sp_dirname(target),
                        visiting.push(target),
                        deps1,
                        (fuel - 1) as nat,
                    )
                }
            },
        }
    }
}

/// The whole resolution of one root: its dependency list (root first) and
/// either the feature block followed by the expanded text, or the first
/// error met.
pub open spec fn sp_resolve(
    store: Seq<FileEntryV>,
    root: Seq<u8>,
    use_camera_integration: bool,
) -> ExpandV {
    let deps0 = seq![root];
    match sp_lookup(store, root) {
        None => ExpandV {
            deps: deps0,
            out: Err(ErrV::SourceRead { path: root, cause: sp_missing_cause() }),
        },
        Some(FileDataV::Unreadable(cause)) => ExpandV {
            deps: deps0,
            out: Err(ErrV::SourceRead { path: root, cause }),
        },
        Some(FileDataV::Text(content)) => {
            let r = sp_expand_lines(
                store,
                sp_split_lines(content),
                0,
                sp_dirname(root),
                seq![root],
                deps0,
                store.len() as nat,
            );
            match r.out {
                Err(e) => ExpandV { deps: r.deps, out: Err(e) },
                Ok(txt) => ExpandV {
                    deps: r.deps,
                    out: Ok(sp_feature_block(use_camera_integration) + txt),
                },
            }
        },
    }
}

/// What [`resolve`] hands back: the dependency list to watch, and the
/// expanded source or the error to report.
pub struct Resolution {
    pub deps: Vec<Vec<u8>>,
    pub out: Result<Vec<u8>, ShaderError>,
}

impl View for Resolution {
    type V = ExpandV;

    open spec fn view(&self) -> ExpandV {
        ExpandV {
            deps: dv(self.deps@),
            out: match self.out {
                Ok(t) => Ok(t@),
                Err(e) => Err(e@),
            },
        }
    }
}

/// The first position at or after `from` holding `b`, if any.
pub fn find_byte(v: &Vec<u8>, b: u8, from: usize) -> (r: Option<usize>)
    requires
        from <= v@.len(),
    ensures
        match r {
            Some(j) => from <= j < v@.len() && sp_find_byte(v@, b, from as int) == Some(j as int),
            None => sp_find_byte(v@, b, from as int) is None,
        },
{
    let mut i: usize = from;
    while i < v.len()
        invariant
            from <= i <= v@.len(),
            sp_find_byte(v@, b, from as int) == sp_find_byte(v@, b, i as int),
        decreases v@.len() - i,
    {
        if v[i] == b {
            return Some(i);
        }
        i = i + 1;
        proof {
            assert(sp_find_byte(v@, b, i - 1) == sp_find_byte(v@, b, i as int));
        }
    }
    None
}

/// The directory part of a path, up to and including its last separator.
pub fn dirname(p: &Vec<u8>) -> (r: Vec<u8>)
    ensures
        r@ == sp_dirname(p@),
{
    let mut n: usize = p.len();
    while n > 0
        invariant
            n <= p@.len(),
            sp_rfind_slash(p@, p@.len() as int) == sp_rfind_slash(p@, n as int),
        decreases n,
    {
        if p[n - 1] == 47u8 {
            return subrange_vec(p, 0, n);
        }
        n = n - 1;
        proof {
            assert(sp_rfind_slash(p@, n + 1) == sp_rfind_slash(p@, n as int));
        }
    }
    Vec::new()
}

fn include_prefix() -> (r: Vec<u8>)
    ensures
        r@ == sp_include_prefix(),
{
    let mut r: Vec<u8> = Vec::new();
    r.push(35u8);
    r.push(105u8);
    r.push(110u8);
    r.push(99u8);
    r.push(108u8);
    r.push(117u8);
    r.push(100u8);
    r.push(101u8);
    r.push(32u8);
    r.push(34u8);
    proof {
        assert(r@ =~= sp_include_prefix());
    }
    r
}

fn missing_cause() -> (r: Vec<u8>)
    ensures
        r@ == sp_missing_cause(),
{
    let mut r: Vec<u8> = Vec::new();
    r.push(110u8);
    r.push(111u8);
    r.push(116u8);
    r.push(32u8);
    r.push(102u8);
    r.push(111u8);
    r.push(117u8);
    r.push(110u8);
    r.push(100u8);
    proof {
        assert(r@ =~= sp_missing_cause());
    }
    r
}

/// The declarations injected in front of every expanded source.
pub fn feature_block(use_camera_integration: bool) -> (r: Vec<u8>)
    ensures
        r@ == sp_feature_block(use_camera_integration),
{
    let mut r: Vec<u8> = Vec::new();
    if use_camera_integration {
        r.push(117u8);
        r.push(110u8);
        r.push(105u8);
        r.push(102u8);
        r.push(111u8);
        r.push(114u8);
        r.push(109u8);
        r.push(32u8);
        r.push(109u8);
        r.push(97u8);
        r.push(116u8);
        r.push(52u8);
        r.push(32u8);
        r.push(115u8);
        r.push(98u8);
        r.push(67u8);
        r.push(97u8);
        r.push(109u8);
        r.push(101u8);
        r.push(114u8);
        r.push(97u8);
        r.push(84u8);
        r.push(114u8);
        r.push(97u8);
        r.push(110u8);
        r.push(115u8);
        r.push(102u8);
        r.push(111u8);
        r.push(114u8);
        r.push(109u8);
        r.push(59u8);
        r.push(10u8);
    }
    proof {
        assert(r@ =~= sp_feature_block(use_camera_integration));
    }
    r
}

/// If the line is an include directive, its target path, relative to the
/// including file's directory.
pub fn parse_include(line: &Vec<u8>) -> (r: Option<Vec<u8>>)
    ensures
        match r {
            Some(t) => sp_is_include(line@) && t@ == sp_include_target(line@),
            None => !sp_is_include(line@),
        },
{
    if line.len() < 10 {
        return None;
    }
    let prefix = include_prefix();
    let head = subrange_vec(line, 0, 10);
    if !crate::bytes::bytes_eq(&head, &prefix) {
        return None;
    }
    match find_byte(line, 34u8, 10) {
        None => None,
        Some(j) => Some(subrange_vec(line, 10, j)),
    }
}

/// The lines of a source text, split at newline bytes.
pub fn split_lines(content: &Vec<u8>) -> (r: Vec<Vec<u8>>)
    ensures
        dv(r@) == sp_split_lines(content@),
{
    let mut r: Vec<Vec<u8>> = Vec::new();
    let mut i: usize = 0;
    while i < content.len()
        invariant
            i <= content@.len(),
            sp_split_lines(content@) == dv(r@) + sp_split_from(content@, i as int),
        decreases content@.len() - i,
    {
        match find_byte(content, 10u8, i) {
            None => {
                let line = subrange_vec(content, i, content.len());
                proof {
                    lemma_dv_push(r@, line);
                    assert(sp_split_from(content@, i as int) =~= seq![line@]);
                    assert(dv(r@) + seq![line@] =~= dv(r@).push(line@));
                    assert(dv(r@.push(line)) + sp_split_from(content@, content@.len() as int)
                        =~= dv(r@).push(line@));
                }
                r.push(line);
                i = content.len();
            },
            Some(j) => {
                let line = subrange_vec(content, i, j);
                proof {
                    lemma_dv_push(r@, line);
                    assert(sp_split_from(content@, i as int) =~= seq![line@] + sp_split_from(
                        content@,
                        j + 1,
                    ));
                    assert(dv(r@) + (seq![line@] + sp_split_from(content@, j + 1)) =~= dv(
                        r@.push(line),
                    ) + sp_split_from(content@, j + 1));
                }
                r.push(line);
                i = j + 1;
            },
        }
    }
    proof {
        assert(dv(r@) + sp_split_from(content@, i as int) =~= dv(r@));
    }
    r
}

fn expand_lines(
    store: &FileStore,
    lines: &Vec<Vec<u8>>,
    i: usize,
    dir: &Vec<u8>,
    visiting: &mut Vec<Vec<u8>>,
    deps: &mut Vec<Vec<u8>>,
    fuel: usize,
) -> (r: Result<Vec<u8>, ShaderError>)
    ensures
        ({
            let s = sp_expand_lines(
                store@,
                dv(lines@),
                i as int,
                dir@,
                dv(old(visiting)@),
                dv(old(deps)@),
                fuel as nat,
            );
            &&& dv(final(deps)@) == s.deps
            &&& dv(final(visiting)@) == dv(old(visiting)@)
            &&& match s.out {
                Ok(txt) => r matches Ok(t) && t@ == txt,
                Err(e) => r matches Err(er) && er@ == e,
            }
        }),
    decreases fuel, 1int, lines@.len() - i,
{
    if i >= lines.len() {
        return Ok(Vec::new());
    }
    proof {
        assert(dv(lines@)[i as int] == lines@[i as int]@);
    }
    match parse_include(&lines[i]) {
        Some(rel) => {
            let mut target = clone_bytes(dir);
            push_all(&mut target, &rel);
            match expand_include(store, &target, visiting, deps, fuel) {
                Err(e) => Err(e),
                Ok(txt) => {
                    match expand_lines(store, lines, i + 1, dir, visiting, deps, fuel) {
                        Err(e) => Err(e),
                        Ok(rest) => {
                            let mut t = txt;
                            push_all(&mut t, &rest);
                            Ok(t)
                        },
                    }
                },
            }
        },
        None => {
            match expand_lines(store, lines, i + 1, dir, visiting, deps, fuel) {
                Err(e) => Err(e),
                Ok(rest) => {
                    let mut t = clone_bytes(&lines[i]);
                    t.push(10u8);
                    push_all(&mut t, &rest);
                    Ok(t)
                },
            }
        },
    }
}

fn expand_include(
    store: &FileStore,
    target: &Vec<u8>,
    visiting: &mut Vec<Vec<u8>>,
    deps: &mut Vec<Vec<u8>>,
    fuel: usize,
) -> (r: Result<Vec<u8>, ShaderError>)
    ensures
        ({
            let s = sp_expand_include(
                store@,
                target@,
                dv(old(visiting)@),
                dv(old(deps)@),
                fuel as nat,
            );
            &&& dv(final(deps)@) == s.deps
            &&& dv(final(visiting)@) == dv(old(visiting)@)
            &&& match s.out {
                Ok(txt) => r matches Ok(t) && t@ == txt,
                Err(e) => r matches Err(er) && er@ == e,
            }
        }),
    decreases fuel, 0int, 0int,
{
    push_unique(deps, target);
    if contains_bytes(visiting, target) {
        return Err(ShaderError::IncludeCycle { path: clone_bytes(target) });
    }
    match store.get(target) {
        None => Err(ShaderError::IncludeNotFound { path: clone_bytes(target) }),
        Some(d) => match d {
            FileData::Unreadable(cause) => Err(
                ShaderError::SourceRead { path: clone_bytes(target), cause: clone_bytes(cause) },
            ),
            FileData::Text(content) => {
                if fuel == 0 {
                    Err(ShaderError::IncludeCycle { path: clone_bytes(target) })
                } else {
                    let content_c = clone_bytes(content);
                    let lines = split_lines(&content_c);
                    let dir = dirname(target);
                    let tc = clone_bytes(target);
                    proof {
                        lemma_dv_push(visiting@, tc);
                    }
                    visiting.push(tc);
                    let r = expand_lines(store, &lines, 0, &dir, visiting, deps, fuel - 1);
                    proof {
                        assert(visiting@.len() == dv(visiting@).len());
                    }
                    let ghost before_pop = visiting@;
                    let _ = visiting.pop();
                    proof {
                        assert forall|k: int|
                            0 <= k < dv(old(visiting)@).len() implies dv(visiting@)[k] == dv(
                            old(visiting)@,
                        )[k] by {
                            assert(visiting@[k] == before_pop[k]);
                            assert(dv(before_pop)[k] == dv(old(visiting)@.push(tc))[k]);
                        }
                        assert(dv(visiting@) =~= dv(old(visiting)@));
                    }
                    r
                }
            },
        },
    }
}

/// Resolves `root` against the store: expands every include, records every
/// file visited, and puts the feature block in front of the expanded text.
pub fn resolve(store: &FileStore, root: &Vec<u8>, use_camera_integration: bool) -> (r: Resolution)
    ensures
        r@ == sp_resolve(store@, root@, use_camera_integration),
{
    let mut deps: Vec<Vec<u8>> = Vec::new();
    deps.push(clone_bytes(root));
    proof {
        assert(dv(deps@) =~= seq![root@]);
    }
    match store.get(root) {
        None => Resolution {
            deps,
            out: Err(ShaderError::SourceRead { path: clone_bytes(root), cause: missing_cause() }),
        },
        Some(d) => match d {
            FileData::Unreadable(cause) => Resolution {
                deps,
                out: Err(
                    ShaderError::SourceRead {
                        path: clone_bytes(root),
                        cause: clone_bytes(cause),
                    },
                ),
            },
            FileData::Text(content) => {
                let content_c = clone_bytes(content);
                let lines = split_lines(&content_c);
                let dir = dirname(root);
                let mut visiting: Vec<Vec<u8>> = Vec::new();
                visiting.push(clone_bytes(root));
                proof {
                    assert(dv(visiting@) =~= seq![root@]);
                    assert(store@.len() == store.entries@.len());
                }
                let fuel = store.entries.len();
                let r = expand_lines(store, &lines, 0, &dir, &mut visiting, &mut deps, fuel);
                match r {
                    Err(e) => Resolution { deps, out: Err(e) },
                    Ok(txt) => {
                        let mut full = feature_block(use_camera_integration);
                        push_all(&mut full, &txt);
                        Resolution { deps, out: Ok(full) }
                    },
                }
            },
        },
    }
}

} // verus!
