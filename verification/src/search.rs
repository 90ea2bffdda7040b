//! Search request parsing: the query's term/filter split and the mapping
//! of key:value pairs onto the closed filter type. Running the searches is
//! the persistence collaborator's work, at the transport edge.
use vstd::prelude::*;

verus! {

/// What a search may look for.
#[derive(Clone, Copy, Debug, PartialEq, Eq, Structural)]
pub enum FilterObjectTypes {
    User,
    World,
    Avatar,
}

/// The orderings a search may ask for.
#[derive(Clone, Copy, Debug, PartialEq, Eq, Structural)]
pub enum SortTypes {
    Name,
    CreatedAt,
    UpdatedAt,
    WeeklyUses,
}

/// One parsed filter; anything unrecognized is kept as `Invalid` rather
/// than dropped.
#[derive(Clone, Copy, Debug, PartialEq, Eq, Structural)]
pub enum Filter {
    Invalid,
    Is(FilterObjectTypes),
    Owner(u128),
    SortBy(SortTypes),
}

/// What a search returns per category, present only for the categories the
/// filters asked for.
pub struct SearchResult {
    pub users: Option<Vec<(u128, String)>>,
    pub worlds: Option<Vec<(u128, String)>>,
    pub avatars: Option<Vec<(u128, String)>>,
}

/// The u128 value of the UUID that uuid::Uuid::parse_str reads a string
/// as, if it reads one; a function of the string alone.
pub uninterp spec fn uuid_from_str(s: Seq<char>) -> Option<u128>;

/// Relies on uuid::Uuid::parse_str: accepts the hyphenated, simple, braced
/// and urn forms of a UUID, and depends on its input alone.
#[verifier::external_body]
fn parse_uuid(s: &str) -> (r: Option<u128>)
    ensures
        r == uuid_from_str(s@),
{
    match uuid::Uuid::parse_str(s) {
        Ok(u) => Some(u.as_u128()),
        Err(_) => None,
    }
}

/// The filter one key:value pair denotes.
pub open spec fn spec_parse_filter(key: Seq<char>, value: Seq<char>) -> Filter {
    if key == "is"@ {
        if value == "user"@ {
            Filter::Is(FilterObjectTypes::User)
        } else if value == "world"@ {
            Filter::Is(FilterObjectTypes::World)
        } else if value == "avatar"@ {
            Filter::Is(FilterObjectTypes::Avatar)
        } else {
            Filter::Invalid
        }
    } else if key == "owner"@ {
        match uuid_from_str(value) {
            Some(u) => Filter::Owner(u),
            None => Filter::Invalid,
        }
    } else if key == "sort"@ {
        if value == "name"@ {
            Filter::SortBy(SortTypes::Name)
        } else if value == "created_at"@ {
            Filter::SortBy(SortTypes::CreatedAt)
        } else if value == "updated_at"@ {
            Filter::SortBy(SortTypes::UpdatedAt)
        } else if value == "weekly_uses"@ {
            Filter::SortBy(SortTypes::WeeklyUses)
        } else {
            Filter::Invalid
        }
    } else {
        Filter::Invalid
    }
}

fn parse_one_filter(key: &String, value: &String) -> (r: Filter)
    ensures
        r == spec_parse_filter(key@, value@),
{
    if *key == String::from_str("is") {
        if *value == String::from_str("user") {
            Filter::Is(FilterObjectTypes::User)
        } else if *value == String::from_str("world") {
            Filter::Is(FilterObjectTypes::World)
        } else if *value == String::from_str("avatar") {
            Filter::Is(FilterObjectTypes::Avatar)
        } else {
            Filter::Invalid
        }
    } else if *key == String::from_str("owner") {
        match parse_uuid(value.as_str()) {
            Some(u) => Filter::Owner(u),
            None => Filter::Invalid,
        }
    } else if *key == String::from_str("sort") {
        if *value == String::from_str("name") {
            Filter::SortBy(SortTypes::Name)
        } else if *value == String::from_str("created_at") {
            Filter::SortBy(SortTypes::CreatedAt)
        } else if *value == String::from_str("updated_at") {
            Filter::SortBy(SortTypes::UpdatedAt)
        } else if *value == String::from_str("weekly_uses") {
            Filter::SortBy(SortTypes::WeeklyUses)
        } else {
            Filter::Invalid
        }
    } else {
        Filter::Invalid
    }
}

/// Maps the parsed key:value pairs onto filters, one each, in order.
pub fn parse_filters(pairs: &Vec<(String, String)>) -> (r: Vec<Filter>)
    ensures
        r@.len() == pairs@.len(),
        forall|i: int|
            0 <= i < pairs@.len() ==> r@[i] == spec_parse_filter(
                (#[trigger] pairs@[i]).0@,
                pairs@[i].1@,
            ),
{
    let mut r: Vec<Filter> = Vec::new();
    let n = pairs.len();
    let mut i: usize = 0;
    while i < n
        invariant
            n == pairs@.len(),
            0 <= i <= n,
            r@.len() == i,
            forall|j: int|
                0 <= j < i ==> r@[j] == spec_parse_filter(
                    (#[trigger] pairs@[j]).0@,
                    pairs@[j].1@,
                ),
        decreases n - i,
    {
        let f = parse_one_filter(&pairs[i].0, &pairs[i].1);
        r.push(f);
        i = i + 1;
    }
    r
}

/// Position of the first occurrence of `c` in `s` at or after `from`.
pub open spec fn spec_find_char(s: Seq<char>, c: char, from: int) -> Option<int>
    decreases s.len() - from,
{
    if from < 0 || from >= s.len() {
        None
    } else if s[from] == c {
        Some(from)
    } else {
        spec_find_char(s, c, from + 1)
    }
}

/// What a found position means: in range, the character there, none of it
/// earlier.
pub proof fn lemma_find_char(s: Seq<char>, c: char, from: int)
    requires
        0 <= from,
    ensures
        match spec_find_char(s, c, from) {
            Some(i) => from <= i < s.len() && s[i] == c && forall|j: int|
                from <= j < i ==> s[j] != c,
            None => forall|j: int| from <= j < s.len() ==> s[j] != c,
        },
    decreases s.len() - from,
{
    if from < s.len() && s[from] != c {
        lemma_find_char(s, c, from + 1);
    }
}

/// The text split at the first occurrence of `c`, which is dropped; `None`
/// when `c` does not occur.
pub open spec fn spec_split_once(s: Seq<char>, c: char) -> Option<(Seq<char>, Seq<char>)> {
    match spec_find_char(s, c, 0) {
        None => None,
        Some(i) => Some((s.take(i), s.skip(i + 1))),
    }
}

/// The text split at every occurrence of `c`: one piece more than there
/// are separators, empty pieces kept.
pub open spec fn spec_split(s: Seq<char>, c: char) -> Seq<Seq<char>>
    decreases s.len(),
{
    match spec_find_char(s, c, 0) {
        None => seq![s],
        Some(i) => if 0 <= i < s.len() {
            seq![s.take(i)] + spec_split(s.skip(i + 1), c)
        } else {
            seq![s]
        },
    }
}

fn find_char(s: &str, c: char, from: usize) -> (r: Option<usize>)
    requires
        from <= s@.len(),
    ensures
        match r {
            Some(i) => Some(i as int) == spec_find_char(s@, c, from as int),
            None => spec_find_char(s@, c, from as int) is None,
        },
{
    let n = s.unicode_len();
    let mut i: usize = from;
    while i < n
        invariant
            n == s@.len(),
            from <= i <= n,
            spec_find_char(s@, c, from as int) == spec_find_char(s@, c, i as int),
        decreases n - i,
    {
        if s.get_char(i) == c {
            return Some(i);
        }
        i = i + 1;
    }
    None
}

/// The views of a list of borrowed strings.
pub open spec fn views_of(s: Seq<&str>) -> Seq<Seq<char>> {
    s.map_values(|t: &str| t@)
}

/// Splits at every occurrence of `c`, as the persistence-free part of the
/// search handler does with `','`.
fn split_char<'a>(s: &'a str, c: char) -> (r: Vec<&'a str>)
    ensures
        views_of(r@) == spec_split(s@, c),
{
    let mut acc: Vec<&str> = Vec::new();
    let mut cur: &str = s;
    let mut idx_opt = find_char(cur, c, 0);
    while idx_opt.is_some()
        invariant
            match idx_opt {
                Some(i) => Some(i as int) == spec_find_char(cur@, c, 0),
                None => spec_find_char(cur@, c, 0) is None,
            },
            spec_split(s@, c) == views_of(acc@) + spec_split(cur@, c),
        decreases cur@.len(),
    {
        let i = match idx_opt {
            Some(i) => i,
            None => 0,
        };
        proof {
            lemma_find_char(cur@, c, 0);
        }
        let m = cur.unicode_len();
        let head = cur.substring_char(0, i);
        let next = cur.substring_char(i + 1, m);
        proof {
            assert(head@ =~= cur@.take(i as int));
            assert(next@ =~= cur@.skip(i as int + 1));
            assert(views_of(acc@.push(head)) =~= views_of(acc@).push(head@));
            assert(views_of(acc@).push(cur@.take(i as int)) + spec_split(
                cur@.skip(i as int + 1),
                c,
            ) =~= views_of(acc@) + (seq![cur@.take(i as int)] + spec_split(
                cur@.skip(i as int + 1),
                c,
            )));
        }
        acc.push(head);
        cur = next;
        idx_opt = find_char(cur, c, 0);
    }
    proof {
        assert(views_of(acc@.push(cur)) =~= views_of(acc@).push(cur@));
        assert(views_of(acc@) + seq![cur@] =~= views_of(acc@).push(cur@));
    }
    acc.push(cur);
    acc
}

/// A segment's key and value: the text around its first `':'`; a segment
/// without one keeps everything as the key, with an empty value.
pub open spec fn spec_pair_of(seg: Seq<char>) -> (Seq<char>, Seq<char>) {
    match spec_split_once(seg, ':') {
        Some(p) => p,
        None => (seg, Seq::empty()),
    }
}

/// A query parses when it has a `'&'` between search term and filters and
/// every filter segment carries a `':'`; the result is the term and the
/// key:value pairs, in order. Duplicate keys are all kept here; the last
/// occurrence governs, as each later filter overrides the earlier one.
pub open spec fn spec_parse_query(q: Seq<char>) -> Option<
    (Seq<char>, Seq<(Seq<char>, Seq<char>)>),
> {
    match spec_split_once(q, '&') {
        None => None,
        Some((term, rest)) => {
            let segs = spec_split(rest, ',');
            if forall|i: int|
                0 <= i < segs.len() ==> spec_split_once(#[trigger] segs[i], ':') is Some {
                Some((term, segs.map_values(|seg: Seq<char>| spec_pair_of(seg))))
            } else {
                None
            }
        },
    }
}

/// Splits a raw search query into its term and its key:value filter
/// pairs; `None` when the query lacks the `'&'` separator or a filter
/// segment lacks its `':'`.
pub fn parse_search_query(query: &str) -> (r: Option<(String, Vec<(String, String)>)>)
    ensures
        match r {
            None => spec_parse_query(query@) is None,
            Some(p) => spec_parse_query(query@) matches Some(q) && p.0@ == q.0 && p.1@.len()
                == q.1.len() && forall|i: int|
                0 <= i < q.1.len() ==> (#[trigger] p.1@[i]).0@ == q.1[i].0 && p.1@[i].1@
                    == q.1[i].1,
        },
{
    let amp = match find_char(query, '&', 0) {
        None => {
            return None;
        },
        Some(i) => i,
    };
    proof {
        lemma_find_char(query@, '&', 0);
    }
    let qn = query.unicode_len();
    let term = query.substring_char(0, amp);
    let rest = query.substring_char(amp + 1, qn);
    proof {
        assert(term@ =~= query@.take(amp as int));
        assert(rest@ =~= query@.skip(amp as int + 1));
    }
    let segs = split_char(rest, ',');
    let mut pairs: Vec<(String, String)> = Vec::new();
    let n = segs.len();
    let ghost termv = query@.take(amp as int);
    let ghost restv = query@.skip(amp as int + 1);
    let ghost seg_views = spec_split(restv, ',');
    let mut i: usize = 0;
    while i < n
        invariant
            n == segs@.len(),
            views_of(segs@) == seg_views,
            seg_views == spec_split(restv, ','),
            spec_split_once(query@, '&') == Some((termv, restv)),
            term@ == termv,
            0 <= i <= n,
            pairs@.len() == i,
            forall|j: int|
                0 <= j < i ==> spec_split_once(#[trigger] seg_views[j], ':') is Some,
            forall|j: int|
                0 <= j < i ==> (#[trigger] pairs@[j]).0@ == spec_pair_of(seg_views[j]).0
                    && pairs@[j].1@ == spec_pair_of(seg_views[j]).1,
        decreases n - i,
    {
        let seg: &str = segs[i];
        proof {
            assert(seg@ == seg_views[i as int]);
        }
        let colon = match find_char(seg, ':', 0) {
            None => {
                proof {
                    assert(spec_split_once(seg_views[i as int], ':') is None);
                    assert(spec_parse_query(query@) is None);
                }
                return None;
            },
            Some(cidx) => cidx,
        };
        proof {
            lemma_find_char(seg@, ':', 0);
        }
        let sn = seg.unicode_len();
        let k = seg.substring_char(0, colon);
        let v = seg.substring_char(colon + 1, sn);
        proof {
            assert(k@ =~= seg@.take(colon as int));
            assert(v@ =~= seg@.skip(colon as int + 1));
        }
        pairs.push((String::from_str(k), String::from_str(v)));
        i = i + 1;
    }
    Some((String::from_str(term), pairs))
}

/// Which categories a filter list asks to search; when none is named, all
/// three are searched.
pub open spec fn spec_search_targets(fs: Seq<Filter>) -> (bool, bool, bool) {
    let users = exists|i: int|
        0 <= i < fs.len() && #[trigger] fs[i] == Filter::Is(FilterObjectTypes::User);
    let worlds = exists|i: int|
        0 <= i < fs.len() && #[trigger] fs[i] == Filter::Is(FilterObjectTypes::World);
    let avatars = exists|i: int|
        0 <= i < fs.len() && #[trigger] fs[i] == Filter::Is(FilterObjectTypes::Avatar);
    if !users && !worlds && !avatars {
        (true, true, true)
    } else {
        (users, worlds, avatars)
    }
}

/// Decides which of the three categories to search for a filter list.
pub fn search_targets(filters: &Vec<Filter>) -> (r: (bool, bool, bool))
    ensures
        r == spec_search_targets(filters@),
{
    let mut users = false;
    let mut worlds = false;
    let mut avatars = false;
    let n = filters.len();
    let mut i: usize = 0;
    while i < n
        invariant
            n == filters@.len(),
            0 <= i <= n,
            users == exists|j: int|
                0 <= j < i && #[trigger] filters@[j] == Filter::Is(FilterObjectTypes::User),
            worlds == exists|j: int|
                0 <= j < i && #[trigger] filters@[j] == Filter::Is(FilterObjectTypes::World),
            avatars == exists|j: int|
                0 <= j < i && #[trigger] filters@[j] == Filter::Is(FilterObjectTypes::Avatar),
        decreases n - i,
    {
        match filters[i] {
            Filter::Is(FilterObjectTypes::User) => {
                users = true;
            },
            Filter::Is(FilterObjectTypes::World) => {
                worlds = true;
            },
            Filter::Is(FilterObjectTypes::Avatar) => {
                avatars = true;
            },
            _ => {},
        }
        i = i + 1;
    }
    if !users && !worlds && !avatars {
        (true, true, true)
    } else {
        (users, worlds, avatars)
    }
}

} // verus!
