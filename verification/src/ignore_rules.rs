//! Gitignore-style rules, compiled and matched by the `ignore` crate.
use vstd::prelude::*;
use ignore::gitignore::{Gitignore, GitignoreBuilder};

verus! {

/// Why settings with ignore rules could not be taken.
pub enum FilterError {
    /// The ignore rule at this position was not accepted.
    RuleRejected(usize),
    /// The accepted rules could not be compiled.
    BuildFailed,
}

/// A compiled set of gitignore rules.
#[verifier::external_type_specification]
#[verifier::external_body]
pub struct ExGitignore(Gitignore);

/// A set of gitignore rules being collected.
#[verifier::external_type_specification]
#[verifier::external_body]
pub struct ExGitignoreBuilder(GitignoreBuilder);

/// What `GitignoreBuilder::add_line(None, line)` makes of `line` in a rule
/// set made by `GitignoreBuilder::new`: `None` when it refuses the line
/// (its glob does not parse), `Some(None)` when it accepts the line without
/// adding a rule (a comment, or a line that is blank once trailing
/// whitespace is trimmed), `Some(Some(rule))` when it adds a rule whose
/// text is `rule` (the line with trailing whitespace trimmed).
pub uninterp spec fn gitignore_add_line(line: Seq<char>) -> Option<Option<Seq<char>>>;

/// The texts of the rules a builder holds, in the order they were added.
pub uninterp spec fn builder_rules(b: GitignoreBuilder) -> Seq<Seq<char>>;

/// The root a builder holds, relative to which its rules are matched.
pub uninterp spec fn builder_root(b: GitignoreBuilder) -> Seq<char>;

/// The texts of the rules a compiled rule set holds, in order.
pub uninterp spec fn gitignore_rules(g: Gitignore) -> Seq<Seq<char>>;

/// The root a compiled rule set holds.
pub uninterp spec fn gitignore_root(g: Gitignore) -> Seq<char>;

/// Whether `GitignoreBuilder::build` succeeds for a builder holding rules
/// with these texts (it compiles their globs into one set).
pub uninterp spec fn gitignore_builds(rules: Seq<Seq<char>>) -> bool;

/// Whether `Gitignore::matched(path, false).is_ignore()` holds for a
/// compiled rule set with this root and these rule texts.
pub uninterp spec fn gitignore_ignores(root: Seq<char>, rules: Seq<Seq<char>>, path: Seq<char>) -> bool;

/// Whether `add_line` accepts `line`.
pub open spec fn gitignore_line_accepted(line: Seq<char>) -> bool {
    gitignore_add_line(line) is Some
}

/// The root `GitignoreBuilder::new` keeps: the given one without a leading
/// `./`.
pub open spec fn kept_root(root: Seq<char>) -> Seq<char> {
    if root.len() >= 2 && root[0] == '.' && root[1] == '/' {
        root.skip(2)
    } else {
        root
    }
}

/// The texts of strings.
pub open spec fn rule_texts(rules: Seq<String>) -> Seq<Seq<char>> {
    rules.map_values(|s: String| s@)
}

/// The rules that the lines add, in order.
pub open spec fn rules_added(lines: Seq<Seq<char>>) -> Seq<Seq<char>>
    decreases lines.len(),
{
    if lines.len() == 0 {
        Seq::<Seq<char>>::empty()
    } else {
        let r = rules_added(lines.drop_last());
        match gitignore_add_line(lines.last()) {
            Some(Some(rule)) => r.push(rule),
            _ => r,
        }
    }
}

/// The root of a rule set built under `root` with these rules: a set
/// without rules holds the empty root.
pub open spec fn built_root(root: Seq<char>, rules: Seq<Seq<char>>) -> Seq<char> {
    if rules.len() > 0 {
        kept_root(root)
    } else {
        Seq::<char>::empty()
    }
}

/// Calls `GitignoreBuilder::new`, which starts a rule set with no rules
/// whose root is `root` without a leading `./`.
#[verifier::external_body]
pub(crate) fn new_builder(root: &str) -> (r: GitignoreBuilder)
    ensures
        builder_rules(r) == Seq::<Seq<char>>::empty(),
        builder_root(r) == kept_root(root@),
{
    GitignoreBuilder::new(root)
}

/// Calls `GitignoreBuilder::add_line` with no source file; returns whether
/// the line was accepted, and adds the rule the line gives, if any (see
/// `gitignore_add_line`; which lines parse is not stated here). The
/// builders of this library keep the options `GitignoreBuilder::new` gives
/// them, so the outcome depends on the line alone; a refused line leaves
/// the builder as it was.
#[verifier::external_body]
pub(crate) fn add_rule(builder: &mut GitignoreBuilder, line: &str) -> (accepted: bool)
    ensures
        accepted == gitignore_line_accepted(line@),
        builder_rules(*final(builder)) == (match gitignore_add_line(line@) {
            Some(Some(rule)) => builder_rules(*old(builder)).push(rule),
            _ => builder_rules(*old(builder)),
        }),
        builder_root(*final(builder)) == builder_root(*old(builder)),
{
    builder.add_line(None, line).is_ok()
}

/// Every rule is accepted.
pub open spec fn all_accepted(rules: Seq<String>) -> bool {
    forall|j: int| 0 <= j < rules.len() ==> gitignore_line_accepted(#[trigger] rules[j]@)
}

/// The rule at `i` is the first one not accepted.
pub open spec fn first_rejected_at(rules: Seq<String>, i: int) -> bool {
    &&& 0 <= i < rules.len()
    &&& !gitignore_line_accepted(rules[i]@)
    &&& all_accepted(rules.take(i))
}

/// Adds the rules in order until one is not accepted; returns its
/// position, or `None` when all were added.
pub(crate) fn add_rules(builder: &mut GitignoreBuilder, rules: &Vec<String>) -> (r: Option<usize>)
    ensures
        r matches Some(i) ==> first_rejected_at(rules@, i as int),
        r is None <==> all_accepted(rules@),
        r is None ==> builder_rules(*final(builder)) == builder_rules(*old(builder)) + rules_added(
            rule_texts(rules@),
        ),
        builder_root(*final(builder)) == builder_root(*old(builder)),
{
    let n = rules.len();
    for i in 0..n
        invariant
            n == rules@.len(),
            all_accepted(rules@.take(i as int)),
            builder_rules(*builder) == builder_rules(*old(builder)) + rules_added(
                rule_texts(rules@.take(i as int)),
            ),
            builder_root(*builder) == builder_root(*old(builder)),
    {
        if !add_rule(builder, rules[i].as_str()) {
            assert(!all_accepted(rules@)) by {
                assert(!gitignore_line_accepted(rules@[i as int]@));
            }
            return Some(i);
        }
        assert(all_accepted(rules@.take(i + 1))) by {
            assert forall|j: int| 0 <= j < i + 1 implies gitignore_line_accepted(
                #[trigger] rules@.take(i + 1)[j]@,
            ) by {
                if j < i {
                    assert(rules@.take(i + 1)[j] == rules@.take(i as int)[j]);
                }
            }
        }
        let ghost lines = rule_texts(rules@.take(i + 1));
        assert(lines.drop_last() =~= rule_texts(rules@.take(i as int)));
        assert(lines.last() == rules@[i as int]@);
        let ghost base = builder_rules(*old(builder));
        proof {
            match gitignore_add_line(rules@[i as int]@) {
                Some(Some(rule)) => {
                    assert(base + rules_added(lines) =~= (base + rules_added(
                        rule_texts(rules@.take(i as int)),
                    )).push(rule));
                },
                _ => {},
            }
        }
    }
    assert(rules@.take(n as int) == rules@);
    None
}

/// Calls `GitignoreBuilder::build`; `None` stands for its error. Building
/// succeeds exactly when the rules' globs compile (see
/// `gitignore_builds`). The rule set built holds the builder's rules and,
/// when it has rules, the builder's root; without rules `build` gives an
/// empty rule set, whose root is empty.
#[verifier::external_body]
pub(crate) fn build_rules(builder: &GitignoreBuilder) -> (r: Option<Gitignore>)
    ensures
        r is Some <==> gitignore_builds(builder_rules(*builder)),
        r matches Some(g) ==> gitignore_rules(g) == builder_rules(*builder) && gitignore_root(g)
            == (if builder_rules(*builder).len() > 0 {
            builder_root(*builder)
        } else {
            Seq::<char>::empty()
        }),
{
    builder.build().ok()
}

/// Calls `Gitignore::matched` for a path that is not a directory and
/// tells whether the match says to ignore it: the result is
/// `gitignore_ignores` of the set's root, its rules and the path.
#[verifier::external_body]
pub(crate) fn is_ignored(rules: &Gitignore, path: &str) -> (ignored: bool)
    ensures
        ignored == gitignore_ignores(gitignore_root(*rules), gitignore_rules(*rules), path@),
{
    rules.matched(path, false).is_ignore()
}

} // verus!
