//! What the searches ask the database for.

use vstd::prelude::*;

#[allow(unused_imports)]
use crate::db::commands_repo::{fts_query, fts_terms, search_commands_statement};
#[allow(unused_imports)]
use crate::db::env_repo::{kind_literals, search_envs_statement};
#[allow(unused_imports)]
use crate::db::vault::VaultView;
#[allow(unused_imports)]
use crate::db::{SqlValueView, StatementView};
#[allow(unused_imports)]
use crate::models::EnvKind;
#[allow(unused_imports)]
use crate::text::{doubled, is_blank, is_space, joined_by, read_doubled, word_end, words_from};

verus! {

broadcast use vstd::string::group_string_axioms;

/// Whether one text comes before another, character by character: the order in
/// which the database sorts texts.
pub open spec fn comes_before(a: Seq<char>, b: Seq<char>) -> bool
    decreases a.len(),
{
    if b.len() == 0 {
        false
    } else if a.len() == 0 {
        true
    } else if a[0] == b[0] {
        comes_before(a.skip(1), b.skip(1))
    } else {
        a[0] < b[0]
    }
}

/// A `SELECT` that sorts by one column and takes the first rows.
pub open spec fn select_text(
    columns: Seq<char>,
    table: Seq<char>,
    condition: Seq<char>,
    column: Seq<char>,
    descending: bool,
) -> Seq<char> {
    "SELECT "@ + columns + " FROM "@ + table + condition + " ORDER BY "@ + column + if descending {
        " DESC LIMIT ?1"@
    } else {
        " ASC LIMIT ?1"@
    }
}

/// Whether rows are sorted by a time and hold the first `limit` of all that
/// there are. A negative limit is none.
pub open spec fn are_first(
    all: Map<Seq<char>, Seq<char>>,
    ids: Seq<Seq<char>>,
    descending: bool,
    limit: i64,
) -> bool {
    &&& ids.no_duplicates()
    &&& forall|i: int| 0 <= i < ids.len() ==> all.contains_key(#[trigger] ids[i])
    &&& limit >= 0 ==> ids.len() <= limit
    &&& limit < 0 || ids.len() < limit ==> forall|id: Seq<char>| #[trigger]
        all.contains_key(id) ==> ids.contains(id)
    &&& forall|i: int, j: int|
        0 <= i < j < ids.len() ==> !(if descending {
            comes_before(all[#[trigger] ids[i]], all[#[trigger] ids[j]])
        } else {
            comes_before(all[ids[j]], all[ids[i]])
        })
    &&& forall|id: Seq<char>, i: int|
        #![trigger all.contains_key(id), ids[i]]
        all.contains_key(id) && !ids.contains(id) && 0 <= i < ids.len() ==> !(if descending {
            comes_before(all[ids[i]], all[id])
        } else {
            comes_before(all[id], all[ids[i]])
        })
}

/// The times at which some commands were saved last.
pub open spec fn command_times(v: VaultView) -> Map<Seq<char>, Seq<char>> {
    Map::new(|id: Seq<char>| v.commands.contains_key(id), |id: Seq<char>| v.commands[id].updated_at)
}

/// What the database answers to a statement over the commands, as far as it is
/// a `SELECT` that sorts by the time of the last update.
pub open spec fn answers_with_commands(
    st: StatementView,
    v: VaultView,
    ids: Seq<Seq<char>>,
) -> bool {
    forall|descending: bool, limit: i64|
        st.params == seq![SqlValueView::Integer(limit)] && st.sql == #[trigger] select_text(
            "id, template, description, created_at, updated_at"@,
            "commands"@,
            Seq::empty(),
            "updated_at"@,
            descending,
        ) ==> #[trigger] are_first(command_times(v), ids, descending, limit)
}

/// A search for nothing lists the commands that were saved last, the latest
/// first: no more than the limit, and none is left out that was saved later
/// than one in the list.
pub proof fn a_blank_search_lists_the_latest_commands(
    raw_query: Seq<char>,
    limit: i64,
    v: VaultView,
    ids: Seq<Seq<char>>,
)
    requires
        is_blank(raw_query),
        answers_with_commands(search_commands_statement(raw_query, limit), v, ids),
    ensures
        limit >= 0 ==> ids.len() <= limit,
        forall|i: int, j: int|
            0 <= i < j < ids.len() ==> !comes_before(
                v.commands[#[trigger] ids[i]].updated_at,
                v.commands[#[trigger] ids[j]].updated_at,
            ),
        forall|id: Seq<char>, i: int|
            #![trigger v.commands.contains_key(id), ids[i]]
            v.commands.contains_key(id) && !ids.contains(id) && 0 <= i < ids.len()
                ==> !comes_before(v.commands[ids[i]].updated_at, v.commands[id].updated_at),
        limit < 0 || ids.len() < limit ==> forall|id: Seq<char>| #[trigger]
            v.commands.contains_key(id) ==> ids.contains(id),
{
    let st = search_commands_statement(raw_query, limit);
    let text = select_text(
        "id, template, description, created_at, updated_at"@,
        "commands"@,
        Seq::empty(),
        "updated_at"@,
        true,
    );
    blank_command_text();
    assert(st.sql == text);
    assert(st.params =~= seq![SqlValueView::Integer(limit)]);
    let all = command_times(v);
    assert(are_first(all, ids, true, limit));
    assert forall|i: int, j: int| 0 <= i < j < ids.len() implies !comes_before(
        v.commands[#[trigger] ids[i]].updated_at,
        v.commands[#[trigger] ids[j]].updated_at,
    ) by {
        assert(all.contains_key(ids[i]) && all.contains_key(ids[j]));
    }
    assert forall|id: Seq<char>, i: int|
        #![trigger v.commands.contains_key(id), ids[i]]
        v.commands.contains_key(id) && !ids.contains(id) && 0 <= i < ids.len() implies !comes_before(
        v.commands[ids[i]].updated_at,
        v.commands[id].updated_at,
    ) by {
        assert(all.contains_key(id) && all.contains_key(ids[i]));
    }
    if limit < 0 || ids.len() < limit {
        assert forall|id: Seq<char>| #[trigger] v.commands.contains_key(id) implies ids.contains(
            id,
        ) by {
            assert(all.contains_key(id));
        }
    }
}

proof fn blank_command_text()
    ensures
        search_commands_statement(Seq::empty(), 0).sql == select_text(
            "id, template, description, created_at, updated_at"@,
            "commands"@,
            Seq::empty(),
            "updated_at"@,
            true,
        ),
{
    reveal_strlit("SELECT ");
    reveal_strlit("id, template, description, created_at, updated_at");
    reveal_strlit(" FROM ");
    reveal_strlit("commands");
    reveal_strlit(" ORDER BY ");
    reveal_strlit("updated_at");
    reveal_strlit(" DESC LIMIT ?1");
    reveal_strlit(
        "SELECT id, template, description, created_at, updated_at FROM commands ORDER BY updated_at DESC LIMIT ?1",
    );
    assert(search_commands_statement(Seq::empty(), 0).sql =~= select_text(
        "id, template, description, created_at, updated_at"@,
        "commands"@,
        Seq::empty(),
        "updated_at"@,
        true,
    ));
}

/// The name of a kind between single quotes.
pub open spec fn quoted_kind(kind: EnvKind) -> Seq<char> {
    match kind {
        EnvKind::Secret => "'secret'"@,
        EnvKind::Text => "'text'"@,
        EnvKind::NumberFloat => "'number_float'"@,
        EnvKind::NumberInt => "'number_int'"@,
    }
}

proof fn kinds_are_quoted(kind: EnvKind, other: EnvKind)
    ensures
        "'"@ + kind.text() + "'"@ == quoted_kind(kind),
        quoted_kind(kind) == quoted_kind(other) ==> kind == other,
{
    reveal_strlit("'");
    reveal_strlit("secret");
    reveal_strlit("text");
    reveal_strlit("number_float");
    reveal_strlit("number_int");
    reveal_strlit("'secret'");
    reveal_strlit("'text'");
    reveal_strlit("'number_float'");
    reveal_strlit("'number_int'");
    assert("'"@ + kind.text() + "'"@ =~= quoted_kind(kind));
    assert("'secret'"@.len() == 8 && "'text'"@.len() == 6);
    assert("'number_float'"@.len() == 14 && "'number_int'"@.len() == 12);
}

/// The condition of a search names exactly the kinds of the filter: the quoted
/// name of a kind is in the list if and only if the filter holds the kind.
pub proof fn searches_name_exactly_the_kinds(kinds: Seq<EnvKind>, kind: EnvKind)
    ensures
        kind_literals(kinds).contains(quoted_kind(kind)) <==> kinds.contains(kind),
        forall|i: int|
            0 <= i < kind_literals(kinds).len() ==> exists|k: EnvKind|
                kinds.contains(k) && #[trigger] kind_literals(kinds)[i] == #[trigger] quoted_kind(
                    k,
                ),
{
    let list = kind_literals(kinds);
    assert forall|i: int| 0 <= i < list.len() implies #[trigger] list[i] == quoted_kind(kinds[i])
        && 0 <= i < kinds.len() by {
        kinds_are_quoted(kinds[i], kinds[i]);
    }
    if kinds.contains(kind) {
        let i = choose|i: int| 0 <= i < kinds.len() && kinds[i] == kind;
        kinds_are_quoted(kind, kind);
        assert(list[i] == quoted_kind(kind));
    }
    if list.contains(quoted_kind(kind)) {
        let i = choose|i: int| 0 <= i < list.len() && list[i] == quoted_kind(kind);
        kinds_are_quoted(kinds[i], kind);
        assert(kinds[i] == kind);
    }
    assert forall|i: int| 0 <= i < list.len() implies exists|k: EnvKind|
        kinds.contains(k) && #[trigger] list[i] == #[trigger] quoted_kind(k) by {
        assert(list[i] == quoted_kind(kinds[i]) && kinds.contains(kinds[i]));
    }
}

/// Texts are joined in order, with the separator between every two.
pub proof fn joining_puts_separators_between(
    parts: Seq<Seq<char>>,
    between: Seq<char>,
    last: Seq<char>,
)
    ensures
        joined_by(Seq::empty(), between) == Seq::<char>::empty(),
        joined_by(seq![last], between) == last,
        parts.len() > 0 ==> joined_by(parts.push(last), between) == joined_by(parts, between)
            + between + last,
{
    assert(parts.push(last).drop_last() =~= parts);
}

/// What a search for envs of some kinds adds to its condition.
pub open spec fn among_kinds(list: Seq<Seq<char>>) -> Seq<char> {
    " WHERE 1=1 AND kind IN ("@ + joined_by(list, ","@) + ")"@
}

/// The times at which the envs of some kinds were saved last.
pub open spec fn env_times(v: VaultView, list: Option<Seq<Seq<char>>>) -> Map<
    Seq<char>,
    Seq<char>,
> {
    Map::new(
        |id: Seq<char>|
            v.envs.contains_key(id) && (list matches Some(names) ==> names.contains(
                quoted_kind(v.envs[id].kind),
            )),
        |id: Seq<char>| v.envs[id].updated_at,
    )
}

/// What the database answers to a statement over the envs, as far as it is a
/// `SELECT` of all envs, or of those whose kind is in a list, that sorts by
/// the time of the last update.
pub open spec fn answers_with_envs(st: StatementView, v: VaultView, ids: Seq<Seq<char>>) -> bool {
    &&& forall|descending: bool, limit: i64|
        st.params == seq![SqlValueView::Integer(limit)] && st.sql == #[trigger] select_text(
            "id, name, kind, value, nonce, description, created_at, updated_at"@,
            "envs"@,
            " WHERE 1=1"@,
            "updated_at"@,
            descending,
        ) ==> #[trigger] are_first(env_times(v, None), ids, descending, limit)
    &&& forall|list: Seq<Seq<char>>, descending: bool, limit: i64|
        st.params == seq![SqlValueView::Integer(limit)] && st.sql == #[trigger] select_text(
            "id, name, kind, value, nonce, description, created_at, updated_at"@,
            "envs"@,
            among_kinds(list),
            "updated_at"@,
            descending,
        ) ==> #[trigger] are_first(env_times(v, Some(list)), ids, descending, limit)
}

proof fn blank_env_text(kinds: Seq<EnvKind>)
    ensures
        search_envs_statement(Seq::empty(), kinds, 0).sql == select_text(
            "id, name, kind, value, nonce, description, created_at, updated_at"@,
            "envs"@,
            if kinds.len() == 0 {
                " WHERE 1=1"@
            } else {
                among_kinds(kind_literals(kinds))
            },
            "updated_at"@,
            true,
        ),
{
    reveal_strlit("SELECT ");
    reveal_strlit("id, name, kind, value, nonce, description, created_at, updated_at");
    reveal_strlit(" FROM ");
    reveal_strlit("envs");
    reveal_strlit(" WHERE 1=1");
    reveal_strlit(" ORDER BY ");
    reveal_strlit("updated_at");
    reveal_strlit(" DESC LIMIT ?1");
    reveal_strlit(
        "SELECT id, name, kind, value, nonce, description, created_at, updated_at FROM envs WHERE 1=1",
    );
    reveal_strlit(" ORDER BY updated_at DESC LIMIT ?1");
    reveal_strlit(" AND kind IN (");
    reveal_strlit(" WHERE 1=1 AND kind IN (");
    let head =
        "SELECT id, name, kind, value, nonce, description, created_at, updated_at FROM envs WHERE 1=1"@;
    let tail = " ORDER BY updated_at DESC LIMIT ?1"@;
    assert(head =~= "SELECT "@
        + "id, name, kind, value, nonce, description, created_at, updated_at"@ + " FROM "@
        + "envs"@ + " WHERE 1=1"@);
    assert(tail =~= " ORDER BY "@ + "updated_at"@ + " DESC LIMIT ?1"@);
    assert(" WHERE 1=1"@ + " AND kind IN ("@ =~= " WHERE 1=1 AND kind IN ("@);
    let st = search_envs_statement(Seq::empty(), kinds, 0);
    let front = "SELECT "@ + "id, name, kind, value, nonce, description, created_at, updated_at"@
        + " FROM "@ + "envs"@;
    if kinds.len() == 0 {
        assert(st.sql =~= head + tail);
        assert(st.sql =~= front + " WHERE 1=1"@ + " ORDER BY "@ + "updated_at"@
            + " DESC LIMIT ?1"@);
    } else {
        let list = joined_by(kind_literals(kinds), ","@);
        assert(st.sql =~= head + (" AND kind IN ("@ + list + ")"@) + tail);
        assert(st.sql =~= front + among_kinds(kind_literals(kinds)) + " ORDER BY "@
            + "updated_at"@ + " DESC LIMIT ?1"@);
    }
}

/// A search for nothing lists the envs of the kinds that were asked for, or of
/// all kinds, the latest first: no env of another kind, no more than the
/// limit, and none is left out that was saved later than one in the list.
pub proof fn a_blank_search_lists_the_latest_envs_of_the_kinds(
    raw_query: Seq<char>,
    kinds: Seq<EnvKind>,
    limit: i64,
    v: VaultView,
    ids: Seq<Seq<char>>,
)
    requires
        is_blank(raw_query),
        answers_with_envs(search_envs_statement(raw_query, kinds, limit), v, ids),
    ensures
        limit >= 0 ==> ids.len() <= limit,
        forall|i: int|
            0 <= i < ids.len() ==> v.envs.contains_key(#[trigger] ids[i]) && (kinds.len() == 0
                || kinds.contains(v.envs[ids[i]].kind)),
        forall|i: int, j: int|
            0 <= i < j < ids.len() ==> !comes_before(
                v.envs[#[trigger] ids[i]].updated_at,
                v.envs[#[trigger] ids[j]].updated_at,
            ),
        forall|id: Seq<char>, i: int|
            #![trigger v.envs.contains_key(id), ids[i]]
            v.envs.contains_key(id) && (kinds.len() == 0 || kinds.contains(v.envs[id].kind))
                && !ids.contains(id) && 0 <= i < ids.len() ==> !comes_before(
                v.envs[ids[i]].updated_at,
                v.envs[id].updated_at,
            ),
        limit < 0 || ids.len() < limit ==> forall|id: Seq<char>| #[trigger]
            v.envs.contains_key(id) && (kinds.len() == 0 || kinds.contains(v.envs[id].kind))
                ==> ids.contains(id),
{
    let st = search_envs_statement(raw_query, kinds, limit);
    let list = kind_literals(kinds);
    blank_env_text(kinds);
    assert(st.params =~= seq![SqlValueView::Integer(limit)]);
    let names = if kinds.len() == 0 {
        None
    } else {
        Some(list)
    };
    let all = env_times(v, names);
    if kinds.len() == 0 {
        assert(st.sql == select_text(
            "id, name, kind, value, nonce, description, created_at, updated_at"@,
            "envs"@,
            " WHERE 1=1"@,
            "updated_at"@,
            true,
        ));
        assert(are_first(env_times(v, None), ids, true, limit));
    } else {
        assert(st.sql == select_text(
            "id, name, kind, value, nonce, description, created_at, updated_at"@,
            "envs"@,
            among_kinds(list),
            "updated_at"@,
            true,
        ));
        assert(are_first(env_times(v, Some(list)), ids, true, limit));
    }
    assert(are_first(all, ids, true, limit));
    assert forall|id: Seq<char>| #[trigger] all.contains_key(id) <==> v.envs.contains_key(id) && (
    kinds.len() == 0 || kinds.contains(v.envs[id].kind)) by {
        searches_name_exactly_the_kinds(kinds, v.envs[id].kind);
    }
    assert forall|i: int| 0 <= i < ids.len() implies v.envs.contains_key(#[trigger] ids[i]) && (
    kinds.len() == 0 || kinds.contains(v.envs[ids[i]].kind)) by {
        assert(all.contains_key(ids[i]));
    }
    assert forall|i: int, j: int| 0 <= i < j < ids.len() implies !comes_before(
        v.envs[#[trigger] ids[i]].updated_at,
        v.envs[#[trigger] ids[j]].updated_at,
    ) by {
        assert(all.contains_key(ids[i]) && all.contains_key(ids[j]));
    }
    assert forall|id: Seq<char>, i: int|
        #![trigger v.envs.contains_key(id), ids[i]]
        v.envs.contains_key(id) && (kinds.len() == 0 || kinds.contains(v.envs[id].kind))
            && !ids.contains(id) && 0 <= i < ids.len() implies !comes_before(
        v.envs[ids[i]].updated_at,
        v.envs[id].updated_at,
    ) by {
        assert(all.contains_key(id) && all.contains_key(ids[i]));
    }
    if limit < 0 || ids.len() < limit {
        assert forall|id: Seq<char>| #[trigger]
            v.envs.contains_key(id) && (kinds.len() == 0 || kinds.contains(
                v.envs[id].kind,
            )) implies ids.contains(id) by {
            assert(all.contains_key(id));
        }
    }
}

/// What was typed is split at white space, and nowhere else: a text without
/// white space is one word, and white space between two texts keeps their
/// words apart.
pub proof fn words_are_what_stands_between_spaces(a: Seq<char>, space: char, b: Seq<char>)
    requires
        is_space(space),
    ensures
        words_from(a + seq![space] + b, 0) == words_from(a, 0) + words_from(b, 0),
        words_from(Seq::<char>::empty(), 0) == Seq::<Seq<char>>::empty(),
        a.len() > 0 && (forall|i: int| 0 <= i < a.len() ==> !is_space(#[trigger] a[i]))
            ==> words_from(a, 0) == seq![a],
{
    words_up_to_a_space(a, space, b, 0);
    if a.len() > 0 && forall|i: int| 0 <= i < a.len() ==> !is_space(#[trigger] a[i]) {
        word_goes_on(a, 0, a.len() as int);
        assert(!is_space(a[0]));
        assert(a.subrange(0, a.len() as int) =~= a);
        assert(words_from(a, a.len() as int) =~= Seq::<Seq<char>>::empty());
        assert(words_from(a, 0) =~= seq![a]);
    }
}

/// A word goes on to the next white space.
proof fn word_goes_on(s: Seq<char>, i: int, end: int)
    requires
        0 <= i <= end <= s.len(),
        forall|k: int| i <= k < end ==> !is_space(#[trigger] s[k]),
        end < s.len() ==> is_space(s[end]),
    ensures
        word_end(s, i) == end,
    decreases end - i,
{
    if i < end {
        word_goes_on(s, i + 1, end);
    }
}

/// Where the word that begins at `i` ends.
proof fn word_end_is_next_space(s: Seq<char>, i: int)
    requires
        0 <= i <= s.len(),
    ensures
        i <= word_end(s, i) <= s.len(),
        forall|k: int| i <= k < word_end(s, i) ==> !is_space(#[trigger] s[k]),
        word_end(s, i) < s.len() ==> is_space(s[word_end(s, i)]),
        i < s.len() && !is_space(s[i]) ==> i < word_end(s, i),
    decreases s.len() - i,
{
    if i < s.len() && !is_space(s[i]) {
        word_end_is_next_space(s, i + 1);
    }
}

/// The words of a text do not depend on what stood before it.
proof fn words_of_the_rest(s: Seq<char>, t: Seq<char>, d: int, i: int)
    requires
        0 <= d,
        0 <= i <= t.len(),
        s.len() == d + t.len(),
        forall|k: int| 0 <= k < t.len() ==> s[d + k] == #[trigger] t[k],
    ensures
        words_from(s, d + i) == words_from(t, i),
    decreases t.len() - i,
{
    if i < t.len() {
        assert(s[d + i] == t[i]);
        if is_space(t[i]) {
            words_of_the_rest(s, t, d, i + 1);
        } else {
            word_end_is_next_space(t, i);
            let end = word_end(t, i);
            assert forall|k: int| d + i <= k < d + end implies !is_space(#[trigger] s[k]) by {
                assert(s[d + (k - d)] == t[k - d]);
            }
            if end < t.len() {
                assert(s[d + end] == t[end]);
            }
            word_goes_on(s, d + i, d + end);
            assert(s.subrange(d + i, d + end) =~= t.subrange(i, end)) by {
                assert forall|k: int| 0 <= k < end - i implies #[trigger] s.subrange(
                    d + i,
                    d + end,
                )[k] == t.subrange(i, end)[k] by {
                    assert(s[d + (i + k)] == t[i + k]);
                }
            }
            words_of_the_rest(s, t, d, end);
        }
    }
}

proof fn words_up_to_a_space(a: Seq<char>, space: char, b: Seq<char>, i: int)
    requires
        is_space(space),
        0 <= i <= a.len(),
    ensures
        words_from(a + seq![space] + b, i) == words_from(a, i) + words_from(b, 0),
    decreases a.len() - i,
{
    let s = a + seq![space] + b;
    let n = a.len() as int;
    if i == n {
        assert(s[n] == space);
        assert forall|k: int| 0 <= k < b.len() implies s[n + 1 + k] == #[trigger] b[k] by {}
        words_of_the_rest(s, b, n + 1, 0);
        assert(words_from(a, n) =~= Seq::<Seq<char>>::empty());
        assert(words_from(s, n) =~= words_from(a, n) + words_from(b, 0));
    } else {
        assert(s[i] == a[i]);
        if is_space(a[i]) {
            words_up_to_a_space(a, space, b, i + 1);
        } else {
            word_end_is_next_space(a, i);
            let end = word_end(a, i);
            assert forall|k: int| i <= k < end implies !is_space(#[trigger] s[k]) by {
                assert(s[k] == a[k]);
            }
            assert(s[end] == if end < n {
                a[end]
            } else {
                space
            });
            word_goes_on(s, i, end);
            assert(s.subrange(i, end) =~= a.subrange(i, end));
            words_up_to_a_space(a, space, b, end);
            assert(words_from(s, i) =~= words_from(a, i) + words_from(b, 0));
        }
    }
}

/// A text search asks for every word of the query as the beginning of a word,
/// between double quotes, whatever the word holds.
pub proof fn every_word_is_searched_for(raw_query: Seq<char>)
    ensures
        ({
            let words = words_from(raw_query, 0);
            exists|terms: Seq<Seq<char>>| #[trigger]
                joined_by(terms, " "@) == fts_query(raw_query) && terms.len() == words.len()
                    && forall|i: int|
                    0 <= i < words.len() ==> {
                        let term = #[trigger] terms[i];
                        &&& term.len() >= 3
                        &&& term[0] == '"'
                        &&& term.last() == '*'
                        &&& read_doubled(term.drop_last().skip(1), '"') == Some(words[i])
                    }
        }),
{
    let words = words_from(raw_query, 0);
    let terms = fts_terms(words);
    assert forall|i: int| 0 <= i < words.len() implies {
        let term = #[trigger] terms[i];
        &&& term.len() >= 3
        &&& term[0] == '"'
        &&& term.last() == '*'
        &&& read_doubled(term.drop_last().skip(1), '"') == Some(words[i])
    } by {
        crate::db::commands_repo::fts_term_is_one_quoted_string(words[i]);
    }
    assert(joined_by(terms, " "@) == fts_query(raw_query));
}

/// A search for some text asks the text index of the commands for it, the best
/// match first.
pub proof fn a_text_search_matches_commands(raw_query: Seq<char>, limit: i64)
    requires
        !is_blank(raw_query),
    ensures
        ({
            let st = search_commands_statement(raw_query, limit);
            &&& st.params == seq![
                SqlValueView::Text(fts_query(raw_query)),
                SqlValueView::Integer(limit),
            ]
            &&& st.sql
                == "SELECT c.id, c.template, c.description, c.created_at, c.updated_at\n         FROM commands_fts f\n         JOIN commands c ON c.rowid = f.rowid\n         WHERE commands_fts MATCH ?1\n         ORDER BY f.rank\n         LIMIT ?2"@
        }),
{
}

/// A search for some text asks the text index of the envs for it, among the
/// kinds of the filter, the best match first.
pub proof fn a_text_search_matches_envs(raw_query: Seq<char>, kinds: Seq<EnvKind>, limit: i64)
    requires
        !is_blank(raw_query),
    ensures
        ({
            let st = search_envs_statement(raw_query, kinds, limit);
            let condition = if kinds.len() == 0 {
                Seq::empty()
            } else {
                " AND kind IN ("@ + joined_by(kind_literals(kinds), ","@) + ")"@
            };
            &&& st.params == seq![
                SqlValueView::Text(fts_query(raw_query)),
                SqlValueView::Integer(limit),
            ]
            &&& st.sql
                == "SELECT e.id, e.name, e.kind, e.value, e.nonce, e.description, e.created_at, e.updated_at\n         FROM envs_fts f\n         JOIN envs e ON e.rowid = f.rowid\n         WHERE envs_fts MATCH ?1"@
                + condition + "\n         ORDER BY f.rank\n         LIMIT ?2"@
        }),
{
}

/// White space is what Unicode calls so.
pub proof fn spaces_are_white_space(c: char)
    ensures
        is_space(c) <==> c == '\t' || c == '\n' || c == '\u{b}' || c == '\u{c}' || c == '\r' || c
            == ' ' || c == '\u{85}' || c == '\u{a0}' || c == '\u{1680}' || ('\u{2000}' <= c && c
            <= '\u{200a}') || c == '\u{2028}' || c == '\u{2029}' || c == '\u{202f}' || c
            == '\u{205f}' || c == '\u{3000}',
{
}

/// A quote is written twice, and everything else once, in order.
pub proof fn only_quotes_are_doubled(before: Seq<char>, c: char, after: Seq<char>, quote: char)
    ensures
        doubled(Seq::empty(), quote).len() == 0,
        doubled(before + seq![c] + after, quote) == doubled(before, quote) + if c == quote {
            seq![c, c]
        } else {
            seq![c]
        } + doubled(after, quote),
    decreases before.len(),
{
    let s = before + seq![c] + after;
    if before.len() == 0 {
        assert(s.skip(1) =~= after);
        assert(doubled(before, quote) =~= Seq::empty());
    } else {
        let rest = before.skip(1);
        only_quotes_are_doubled(rest, c, after, quote);
        assert(s.skip(1) =~= rest + seq![c] + after);
        assert(s[0] == before[0]);
    }
}

} // verus!
