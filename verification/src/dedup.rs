//! Prompts before they are compared: the form in which a prompt is counted,
//! and which prompts are left out as code.

use vstd::prelude::*;
use crate::models::PromptCluster;
use crate::order::{ordered, rank_values, sort_by_rank};
use crate::schema::names_view;
use crate::text::{
    append_chars, join_with, owned,
    chars_of, contains, contains_text, lowercase_of, starts_with, string_of, to_lower, trim,
    trimmed,
};

verus! {

/// Whether the text, which is in lower case, looks like code or like
/// markup rather than like a prompt.
pub open spec fn code_like(s: Seq<char>) -> bool {
    contains_text(s, "import "@) || contains_text(s, "export "@) || contains_text(s, "const "@)
        || contains_text(s, "function "@) || contains_text(s, "interface "@) || "//"@.is_prefix_of(
        s,
    ) || "/*"@.is_prefix_of(s) || "```"@.is_prefix_of(s) || contains_text(s, ".js:"@)
        || contains_text(s, ".ts:"@) || contains_text(s, ".tsx:"@) || contains_text(s, "chunk-"@)
        || contains_text(s, "requestanimationframe"@) || contains_text(s, "installhook"@)
        || "["@.is_prefix_of(s) || "{"@.is_prefix_of(s) || "<"@.is_prefix_of(s)
}

/// The form in which a prompt is counted: trimmed and in lower case; the
/// empty text for a prompt that looks like code.
pub open spec fn normalized_prompt(s: Seq<char>) -> Seq<char> {
    let lower = lowercase_of(trimmed(s));
    if code_like(lower) {
        Seq::empty()
    } else {
        lower
    }
}

/// Whether the text, which is in lower case, looks like code or like
/// markup.
pub fn is_code_like(lower: &str) -> (r: bool)
    ensures
        r == code_like(lower@),
{
    let s = chars_of(lower);
    contains(&s, &chars_of("import ")) || contains(&s, &chars_of("export ")) || contains(
        &s,
        &chars_of("const "),
    ) || contains(&s, &chars_of("function ")) || contains(&s, &chars_of("interface "))
        || starts_with(&s, &chars_of("//")) || starts_with(&s, &chars_of("/*")) || starts_with(
        &s,
        &chars_of("```"),
    ) || contains(&s, &chars_of(".js:")) || contains(&s, &chars_of(".ts:")) || contains(
        &s,
        &chars_of(".tsx:"),
    ) || contains(&s, &chars_of("chunk-")) || contains(&s, &chars_of("requestanimationframe"))
        || contains(&s, &chars_of("installhook")) || starts_with(&s, &chars_of("["))
        || starts_with(&s, &chars_of("{")) || starts_with(&s, &chars_of("<"))
}

/// The form in which a prompt is counted.
pub fn normalize(s: &str) -> (r: String)
    ensures
        r@ == normalized_prompt(s@),
{
    let lower = to_lower(&trim(&chars_of(s)));
    let text = string_of(&lower);
    if is_code_like(text.as_str()) {
        String::new()
    } else {
        text
    }
}

/// The order in which clusters are listed.
#[derive(Clone, Copy, Debug, PartialEq, Eq, Structural)]
pub enum ClusterOrder {
    /// The cluster with the most prompts comes first.
    Count,
    /// The cluster that was used last comes first.
    Latest,
}

/// What a cluster is ordered by: the larger comes first.
pub open spec fn cluster_rank(cluster: PromptCluster, order: ClusterOrder) -> int {
    match order {
        ClusterOrder::Count => cluster.count as int,
        ClusterOrder::Latest => cluster.latest_timestamp as int,
    }
}

/// The ranks of the clusters, each at the place of its cluster.
pub open spec fn cluster_ranks(clusters: Seq<PromptCluster>, order: ClusterOrder) -> Seq<int> {
    Seq::new(clusters.len(), |i: int| cluster_rank(clusters[i], order))
}

/// The clusters in order: the higher rank first, and of two with the same
/// rank the one that was first before.
pub fn sort_clusters(clusters: Vec<PromptCluster>, order: ClusterOrder) -> (r: Vec<PromptCluster>)
    ensures
        r@ == ordered(clusters@, cluster_ranks(clusters@, order)),
{
    let mut ranks: Vec<i128> = Vec::new();
    let mut i: usize = 0;
    while i < clusters.len()
        invariant
            i <= clusters.len(),
            ranks@.len() == i,
            forall|k: int| 0 <= k < i ==> #[trigger] ranks@[k] == cluster_rank(clusters@[k], order),
        decreases clusters.len() - i,
    {
        let rank: i128 = match order {
            ClusterOrder::Count => clusters[i].count as i128,
            ClusterOrder::Latest => clusters[i].latest_timestamp as i128,
        };
        ranks.push(rank);
        i += 1;
    }
    assert(rank_values(ranks@) =~= cluster_ranks(clusters@, order));
    sort_by_rank(clusters, &ranks)
}

/// Of the first `n` clusters, those with at least `min_count` prompts, in
/// order, and no more than `limit` of them.
pub open spec fn shown_upto(clusters: Seq<PromptCluster>, min_count: usize, limit: usize, n: nat)
    -> Seq<PromptCluster>
    decreases n,
{
    if n == 0 || n > clusters.len() {
        Seq::empty()
    } else {
        let before = shown_upto(clusters, min_count, limit, (n - 1) as nat);
        if clusters[n - 1].count >= min_count && before.len() < limit {
            before.push(clusters[n - 1])
        } else {
            before
        }
    }
}

/// The clusters that are shown: those with at least `min_count` prompts,
/// in order, and no more than `limit` of them.
pub fn select_clusters(clusters: Vec<PromptCluster>, min_count: usize, limit: usize) -> (r: Vec<
    PromptCluster,
>)
    ensures
        r@ == shown_upto(clusters@, min_count, limit, clusters@.len()),
{
    let ghost all = clusters@;
    let mut shown: Vec<PromptCluster> = Vec::new();
    for cluster in it: clusters
        invariant
            it.seq() == all,
            shown@ == shown_upto(all, min_count, limit, it.index() as nat),
    {
        if cluster.count >= min_count && shown.len() < limit {
            shown.push(cluster);
        }
    }
    shown
}

/// Of the first `n` variants, those that differ from `canonical`, in
/// order, and no more than three of them.
pub open spec fn other_variants_upto(variants: Seq<Seq<char>>, canonical: Seq<char>, n: nat) -> Seq<
    Seq<char>,
>
    decreases n,
{
    if n == 0 || n > variants.len() {
        Seq::empty()
    } else {
        let before = other_variants_upto(variants, canonical, (n - 1) as nat);
        if variants[n - 1] != canonical && before.len() < 3 {
            before.push(variants[n - 1])
        } else {
            before
        }
    }
}

/// The text that stands for the variants of a cluster: up to three
/// variants other than the one that stands for the cluster, with `, `
/// between them; `-` for a cluster of one variant.
pub open spec fn variants_text_of(cluster: PromptCluster) -> Seq<char> {
    if cluster.variants@.len() > 1 {
        join_with(
            other_variants_upto(
                names_view(cluster.variants@),
                cluster.canonical@,
                cluster.variants@.len(),
            ),
            ", "@,
        )
    } else {
        "-"@
    }
}

/// The text that stands for the variants of a cluster.
pub fn variants_text(cluster: &PromptCluster) -> (r: String)
    ensures
        r@ == variants_text_of(*cluster),
{
    if cluster.variants.len() <= 1 {
        return owned("-");
    }
    let ghost views = names_view(cluster.variants@);
    let mut out: Vec<char> = Vec::new();
    let ghost mut kept: Seq<Seq<char>> = Seq::empty();
    let mut count: usize = 0;
    let mut i: usize = 0;
    while i < cluster.variants.len()
        invariant
            i <= cluster.variants.len(),
            views == names_view(cluster.variants@),
            kept == other_variants_upto(views, cluster.canonical@, i as nat),
            count == kept.len(),
            count <= 3,
            out@ == join_with(kept, ", "@),
        decreases cluster.variants.len() - i,
    {
        if cluster.variants[i] != cluster.canonical && count < 3 {
            if count > 0 {
                append_chars(&mut out, &chars_of(", "));
            }
            append_chars(&mut out, &chars_of(cluster.variants[i].as_str()));
            proof {
                let longer = kept.push(cluster.variants@[i as int]@);
                assert(longer.drop_last() == kept);
                assert(longer.last() == cluster.variants@[i as int]@);
                assert(out@ =~= join_with(longer, ", "@));
                kept = longer;
            }
            count += 1;
        }
        i += 1;
    }
    string_of(&out)
}

} // verus!
