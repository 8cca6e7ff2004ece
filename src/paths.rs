//! A model of slash-separated paths, and the exact text operations on them
//! that the mirror layout needs: components, base names, joins.
use vstd::prelude::*;

verus! {

/// A piece between separators that names something: not empty and not `.`.
pub open spec fn names_something(seg: Seq<char>) -> bool {
    seg.len() > 0 && seg != seq!['.']
}

/// Adds the finished piece `seg` to `done` when it names something.
pub open spec fn close_piece(done: Seq<Seq<char>>, seg: Seq<char>) -> Seq<Seq<char>> {
    if names_something(seg) {
        done.push(seg)
    } else {
        done
    }
}

/// Reads `s` from the left: the components finished so far and the piece
/// still open after the last separator.
pub open spec fn scan(s: Seq<char>) -> (Seq<Seq<char>>, Seq<char>)
    decreases s.len(),
{
    if s.len() == 0 {
        (seq![], seq![])
    } else {
        let prev = scan(s.drop_last());
        if s.last() == '/' {
            (close_piece(prev.0, prev.1), seq![])
        } else {
            (prev.0, prev.1.push(s.last()))
        }
    }
}

/// The components of a path: its pieces between `/`, without empty ones and
/// without `.`.
pub open spec fn components(s: Seq<char>) -> Seq<Seq<char>> {
    close_piece(scan(s).0, scan(s).1)
}

pub open spec fn is_absolute(s: Seq<char>) -> bool {
    s.len() > 0 && s[0] == '/'
}

/// The last component of `cs` that is not `..`, or the empty name.
pub open spec fn last_name(cs: Seq<Seq<char>>) -> Seq<char>
    decreases cs.len(),
{
    if cs.len() == 0 {
        seq![]
    } else if cs.last() != seq!['.', '.'] {
        cs.last()
    } else {
        last_name(cs.drop_last())
    }
}

/// The final name of a path, skipping trailing separators, `.` and `..`.
pub open spec fn base_name_spec(s: Seq<char>) -> Seq<char> {
    last_name(components(s))
}

/// `part` appended to `base` with one separator between them; an absolute
/// `part` replaces `base`.
pub open spec fn join_spec(base: Seq<char>, part: Seq<char>) -> Seq<char> {
    if is_absolute(part) {
        part
    } else if base.len() == 0 || base.last() == '/' {
        base + part
    } else {
        base + seq!['/'] + part
    }
}

/// `base` with each of `parts` joined on, in order.
pub open spec fn join_all(base: Seq<char>, parts: Seq<Seq<char>>) -> Seq<char>
    decreases parts.len(),
{
    if parts.len() == 0 {
        base
    } else {
        join_spec(join_all(base, parts.drop_last()), parts.last())
    }
}

/// `file` lies strictly inside `dir`: both absolute or both relative, and the
/// components of `dir` are a proper prefix of those of `file`.
pub open spec fn lies_under(file: Seq<char>, dir: Seq<char>) -> bool {
    &&& is_absolute(file) == is_absolute(dir)
    &&& components(dir).len() < components(file).len()
    &&& components(file).subrange(0, components(dir).len() as int) == components(dir)
}

/// The components of `file` below `dir`.
pub open spec fn relative_components(file: Seq<char>, dir: Seq<char>) -> Seq<Seq<char>> {
    components(file).subrange(components(dir).len() as int, components(file).len() as int)
}

fn close_piece_exec(done: &mut Vec<String>, path: &str, from: usize, to: usize)
    requires
        from <= to <= path@.len(),
    ensures
        final(done).deep_view() == close_piece(old(done).deep_view(), path@.subrange(
            from as int,
            to as int,
        )),
{
    let seg = path.substring_char(from, to);
    let dot = to - from == 1 && seg.get_char(0) == '.';
    proof {
        if to - from == 1 {
            assert(seg@ == seq!['.'] <==> seg@[0] == '.') by {
                if seg@[0] == '.' {
                    assert(seg@ =~= seq!['.']);
                }
            }
        }
    }
    if to - from > 0 && !dot {
        let ghost before = done.deep_view();
        done.push(String::from_str(seg));
        proof {
            assert(done.deep_view() =~= before.push(seg@));
        }
    }
}

/// The components of `path`, in order.
pub fn path_components(path: &str) -> (r: Vec<String>)
    ensures
        r.deep_view() == components(path@),
{
    let n = path.unicode_len();
    let mut done: Vec<String> = Vec::new();
    let mut start: usize = 0;
    let mut i: usize = 0;
    proof {
        assert(done.deep_view() =~= seq![]);
        assert(path@.subrange(0, 0) =~= seq![]);
    }
    while i < n
        invariant
            n == path@.len(),
            start <= i <= n,
            scan(path@.subrange(0, i as int)) == (done.deep_view(), path@.subrange(
                start as int,
                i as int,
            )),
        decreases n - i,
    {
        let c = path.get_char(i);
        assert(path@.subrange(0, i + 1).drop_last() =~= path@.subrange(0, i as int));
        if c == '/' {
            close_piece_exec(&mut done, path, start, i);
            start = i + 1;
            assert(path@.subrange(start as int, i + 1) =~= seq![]);
        } else {
            assert(path@.subrange(start as int, i + 1) =~= path@.subrange(
                start as int,
                i as int,
            ).push(c));
        }
        i = i + 1;
    }
    close_piece_exec(&mut done, path, start, n);
    assert(path@.subrange(0, n as int) =~= path@);
    done
}

/// The final name of `path`: its last component that is not `..`, or the
/// empty name when it has none.
pub fn base_name(path: &str) -> (r: String)
    ensures
        r@ == base_name_spec(path@),
{
    let comps = path_components(path);
    let ghost cs = comps.deep_view();
    let mut i: usize = comps.len();
    assert(cs.subrange(0, i as int) =~= cs);
    while i > 0
        invariant
            i <= comps.len(),
            cs == comps.deep_view(),
            cs == components(path@),
            last_name(cs) == last_name(cs.subrange(0, i as int)),
        decreases i,
    {
        let is_parent = comps[i - 1].as_str().unicode_len() == 2
            && comps[i - 1].as_str().get_char(0) == '.'
            && comps[i - 1].as_str().get_char(1) == '.';
        let ghost prefix = cs.subrange(0, i as int);
        assert(cs[i - 1] == comps[i - 1]@);
        assert(prefix.last() == comps[i - 1]@);
        proof {
            if comps[i - 1]@.len() == 2 {
                if comps[i - 1]@[0] == '.' && comps[i - 1]@[1] == '.' {
                    assert(comps[i - 1]@ =~= seq!['.', '.']);
                }
            }
        }
        if !is_parent {
            let r = comps[i - 1].clone();
            assert(r@ == prefix.last());
            assert(prefix.last() != seq!['.', '.']) by {
                let dots = seq!['.', '.'];
                assert(dots.len() == 2 && dots[0] == '.' && dots[1] == '.');
            }

            return r;
        }
        assert(prefix.drop_last() =~= cs.subrange(0, i - 1));
        i = i - 1;
    }
    String::new()
}

/// `part` joined onto `base` as a path.
pub fn join_path(base: &str, part: &str) -> (r: String)
    ensures
        r@ == join_spec(base@, part@),
{
    let base_len = base.unicode_len();
    let part_len = part.unicode_len();
    if part_len > 0 && part.get_char(0) == '/' {
        String::from_str(part)
    } else if base_len == 0 || base.get_char(base_len - 1) == '/' {
        let mut r = String::from_str(base);
        r.append(part);
        r
    } else {
        let mut r = String::from_str(base);
        proof {
            reveal_strlit("/");
        }
        r.append("/");
        r.append(part);
        r
    }
}

/// `base` with `parts[from..to]` joined on, in order.
pub fn join_parts(base: &str, parts: &Vec<String>, from: usize, to: usize) -> (r: String)
    requires
        from <= to <= parts.len(),
    ensures
        r@ == join_all(base@, parts.deep_view().subrange(from as int, to as int)),
{
    let mut r = String::from_str(base);
    let mut i: usize = from;
    assert(parts.deep_view().subrange(from as int, from as int) =~= seq![]);
    while i < to
        invariant
            from <= i <= to <= parts.len(),
            r@ == join_all(base@, parts.deep_view().subrange(from as int, i as int)),
        decreases to - i,
    {
        assert(parts.deep_view().subrange(from as int, i + 1).drop_last() =~= parts.deep_view().subrange(
            from as int,
            i as int,
        ));
        r = join_path(r.as_str(), parts[i].as_str());
        i = i + 1;
    }
    r
}

/// Whether `prefix` holds the first components of `comps`, strictly fewer
/// than all of them.
fn is_proper_prefix(prefix: &Vec<String>, comps: &Vec<String>) -> (r: bool)
    ensures
        r == (prefix.len() < comps.len() && comps.deep_view().subrange(0, prefix.len() as int)
            == prefix.deep_view()),
{
    if prefix.len() >= comps.len() {
        return false;
    }
    let mut i: usize = 0;
    while i < prefix.len()
        invariant
            prefix.len() < comps.len(),
            i <= prefix.len(),
            forall|j: int| 0 <= j < i ==> #[trigger] prefix[j]@ == comps[j]@,
        decreases prefix.len() - i,
    {
        if prefix[i] != comps[i] {
            assert(comps.deep_view().subrange(0, prefix.len() as int)[i as int] != prefix.deep_view()[i as int]);
            return false;
        }
        i = i + 1;
    }
    assert(comps.deep_view().subrange(0, prefix.len() as int) =~= prefix.deep_view());
    true
}

/// Whether the path `file` lies strictly inside the directory `dir`.
pub fn is_under(file: &str, dir: &str) -> (r: bool)
    ensures
        r == lies_under(file@, dir@),
{
    let file_comps = path_components(file);
    let dir_comps = path_components(dir);
    let file_abs = file.unicode_len() > 0 && file.get_char(0) == '/';
    let dir_abs = dir.unicode_len() > 0 && dir.get_char(0) == '/';
    file_abs == dir_abs && is_proper_prefix(&dir_comps, &file_comps)
}

proof fn lemma_close_piece_after(front: Seq<Seq<char>>, done: Seq<Seq<char>>, seg: Seq<char>)
    ensures
        close_piece(front + done, seg) == front + close_piece(done, seg),
{
    assert((front + done).push(seg) =~= front + done.push(seg));
}

/// Reading past a separator: what was read before it is finished.
proof fn lemma_scan_after_separator(a: Seq<char>, b: Seq<char>)
    ensures
        scan(a + seq!['/'] + b) == (components(a) + scan(b).0, scan(b).1),
    decreases b.len(),
{
    let s = a + seq!['/'] + b;
    if b.len() == 0 {
        assert(s.drop_last() =~= a);
        assert(components(a) + seq![] =~= components(a));
    } else {
        let b1 = b.drop_last();
        lemma_scan_after_separator(a, b1);
        assert(s.drop_last() =~= a + seq!['/'] + b1);
        assert(s.last() == b.last());
        lemma_close_piece_after(components(a), scan(b1).0, scan(b1).1);
    }
}

/// The components of a join are those of its two parts, and the join is
/// absolute exactly when its base is.
pub proof fn lemma_components_of_join(a: Seq<char>, b: Seq<char>)
    requires
        !is_absolute(b),
    ensures
        components(join_spec(a, b)) == components(a) + components(b),
        is_absolute(join_spec(a, b)) == is_absolute(a),
{
    let j = join_spec(a, b);
    if a.len() == 0 {
        assert(j =~= b);
        assert(components(a) + components(b) =~= components(b));
    } else if a.last() == '/' {
        let a1 = a.drop_last();
        assert(j =~= a1 + seq!['/'] + b);
        assert(a =~= a1 + seq!['/'] + seq![]);
        lemma_scan_after_separator(a1, b);
        lemma_scan_after_separator(a1, seq![]);
        lemma_close_piece_after(components(a1), scan(b).0, scan(b).1);
        assert(components(a1) + seq![] =~= components(a1));
        assert(j[0] == a[0]);
    } else {
        lemma_scan_after_separator(a, b);
        lemma_close_piece_after(components(a), scan(b).0, scan(b).1);
        assert(j[0] == a[0]);
    }
}

} // verus!
