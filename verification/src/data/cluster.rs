use vstd::prelude::*;
use vstd::string::StringExecFns;
use crate::error::ZError;
use crate::text::{decimal_of, push_decimal};

verus! {

/// The outcome of a clustering: which cluster each sample went to.
#[derive(Debug, Clone)]
pub struct ClusterResult {
    /// Cluster of each sample.
    pub labels: Vec<usize>,
    /// Number of clusters.
    pub k: usize,
    /// Number of samples in each cluster.
    pub sizes: Vec<usize>,
    /// Rows of the source table in each cluster.
    pub cluster_members: Vec<Vec<usize>>,
}

/// One line for each of the first `n` clusters: `  Cluster i: N samples`.
pub open spec fn sizes_shown(sizes: Seq<usize>, n: nat) -> Seq<char>
    decreases n,
{
    if n == 0 {
        Seq::empty()
    } else {
        sizes_shown(sizes, (n - 1) as nat) + "  Cluster "@ + decimal_of((n - 1) as nat) + ": "@
            + decimal_of(sizes[n - 1] as nat) + " samples\n"@
    }
}

/// The summary of a clustering: a head line with `k`, then one line for
/// each cluster.
pub open spec fn clusters_shown(k: nat, sizes: Seq<usize>) -> Seq<char> {
    "K-means clustering with k="@ + decimal_of(k) + "\n"@ + sizes_shown(sizes, sizes.len())
}

impl ClusterResult {
    /// A summary for a reader.
    pub fn summary(&self) -> (s: String)
        ensures
            s@ == clusters_shown(self.k as nat, self.sizes@),
    {
        let mut out = String::from_str("K-means clustering with k=");
        push_decimal(&mut out, self.k as u64);
        out.append("\n");
        let ghost head = out@;
        let mut i: usize = 0;
        while i < self.sizes.len()
            invariant
                i <= self.sizes.len(),
                out@ == head + sizes_shown(self.sizes@, i as nat),
            decreases self.sizes.len() - i,
        {
            let ghost before = sizes_shown(self.sizes@, i as nat);
            out.append("  Cluster ");
            push_decimal(&mut out, i as u64);
            out.append(": ");
            push_decimal(&mut out, self.sizes[i] as u64);
            out.append(" samples\n");
            assert(out@ == head + (before + "  Cluster "@ + decimal_of(i as nat) + ": "@
                + decimal_of(self.sizes[i as int] as nat) + " samples\n"@));
            i += 1;
        }
        out
    }

    /// The rows of the source table that went to cluster `cluster_id`.
    pub fn get_cluster(&self, cluster_id: usize) -> (r: Option<&Vec<usize>>)
        ensures
            r == if cluster_id < self.cluster_members.len() {
                Some(&self.cluster_members[cluster_id as int])
            } else {
                None
            },
    {
        if cluster_id < self.cluster_members.len() {
            Some(&self.cluster_members[cluster_id])
        } else {
            None
        }
    }
}

/// Number of the first `n` labels that are `cluster`.
pub open spec fn count_in(labels: Seq<usize>, cluster: int, n: int) -> nat
    decreases n,
{
    if n <= 0 {
        0
    } else {
        count_in(labels, cluster, n - 1) + if labels[n - 1] == cluster {
            1nat
        } else {
            0nat
        }
    }
}

/// The rows of the samples among the first `n` whose label is `cluster`,
/// in order.
pub open spec fn rows_in(labels: Seq<usize>, rows: Seq<usize>, cluster: int, n: int) -> Seq<usize>
    decreases n,
{
    if n <= 0 {
        Seq::empty()
    } else if labels[n - 1] == cluster {
        rows_in(labels, rows, cluster, n - 1).push(rows[n - 1])
    } else {
        rows_in(labels, rows, cluster, n - 1)
    }
}

/// No more labels are counted than there are.
pub proof fn count_in_bounded(labels: Seq<usize>, cluster: int, n: int)
    ensures
        count_in(labels, cluster, n) <= if n <= 0 {
            0
        } else {
            n
        },
    decreases n,
{
    if n > 0 {
        count_in_bounded(labels, cluster, n - 1);
    }
}

/// Says whether `k` clusters can be made of `n_samples` samples: there
/// must be at least one cluster and no more clusters than samples.
pub fn check_cluster_count(n_samples: usize, k: usize) -> (r: Result<(), ZError>)
    ensures
        r is Ok <==> 1 <= k <= n_samples,
        n_samples < k ==> r is Err && r->Err_0 is Ml && r->Err_0->Ml_0@ == "Cannot create "@
            + decimal_of(k as nat) + " clusters with only "@ + decimal_of(n_samples as nat)
            + " samples"@,
        k == 0 && n_samples >= k ==> r is Err && r->Err_0 is Ml && r->Err_0->Ml_0@
            == "k must be at least 1"@,
{
    if n_samples < k {
        let mut message = String::from_str("Cannot create ");
        push_decimal(&mut message, k as u64);
        message.append(" clusters with only ");
        push_decimal(&mut message, n_samples as u64);
        message.append(" samples");
        return Err(ZError::Ml(message));
    }
    if k == 0 {
        return Err(ZError::Ml(String::from_str("k must be at least 1")));
    }
    Ok(())
}

impl ClusterResult {
    /// The outcome of a clustering into `k` clusters, from the label of
    /// each sample and the row of the source table that each sample came
    /// from: the size of each cluster and the rows in it.
    pub fn from_labels(labels: Vec<usize>, k: usize, row_indices: &Vec<usize>) -> (r: ClusterResult)
        requires
            labels.len() == row_indices.len(),
            forall|i: int| 0 <= i < labels.len() ==> labels[i] < k,
        ensures
            r.labels == labels,
            r.k == k,
            r.sizes.len() == k,
            r.cluster_members.len() == k,
            forall|c: int|
                0 <= c < k ==> #[trigger] r.sizes[c] == count_in(labels@, c, labels.len() as int),
            forall|c: int|
                0 <= c < k ==> (#[trigger] r.cluster_members[c])@ == rows_in(
                    labels@,
                    row_indices@,
                    c,
                    labels.len() as int,
                ),
    {
        let mut sizes: Vec<usize> = Vec::new();
        let mut members: Vec<Vec<usize>> = Vec::new();
        let mut c: usize = 0;
        while c < k
            invariant
                c <= k,
                sizes.len() == c,
                members.len() == c,
                forall|j: int| 0 <= j < c ==> #[trigger] sizes[j] == 0,
                forall|j: int| 0 <= j < c ==> (#[trigger] members[j])@ == Seq::<usize>::empty(),
            decreases k - c,
        {
            sizes.push(0);
            members.push(Vec::new());
            c += 1;
        }
        let mut i: usize = 0;
        while i < labels.len()
            invariant
                i <= labels.len() == row_indices.len(),
                sizes.len() == k,
                members.len() == k,
                forall|j: int| 0 <= j < labels.len() ==> labels[j] < k,
                forall|j: int| 0 <= j < k ==> #[trigger] sizes[j] == count_in(labels@, j, i as int),
                forall|j: int|
                    0 <= j < k ==> (#[trigger] members[j])@ == rows_in(
                        labels@,
                        row_indices@,
                        j,
                        i as int,
                    ),
            decreases labels.len() - i,
        {
            let at = labels[i];
            proof {
                count_in_bounded(labels@, at as int, i as int);
            }
            let ghost old_sizes = sizes@;
            let ghost old_members = members@;
            sizes.set(at, sizes[at] + 1);
            let mut rows = members[at].clone();
            rows.push(row_indices[i]);
            members.set(at, rows);
            assert forall|j: int| 0 <= j < k implies (#[trigger] members[j])@ == rows_in(
                labels@,
                row_indices@,
                j,
                i + 1,
            ) by {
                if j != at {
                    assert(members[j] == old_members[j]);
                }
            }
            assert forall|j: int| 0 <= j < k implies #[trigger] sizes[j] == count_in(
                labels@,
                j,
                i + 1,
            ) by {
                if j != at {
                    assert(sizes[j] == old_sizes[j]);
                }
            }
            i += 1;
        }
        ClusterResult { labels, k, sizes, cluster_members: members }
    }
}

/// What a density clustering found: the number of clusters, the number of
/// samples left out as noise, and the size of each cluster.
#[derive(Debug, Clone)]
pub struct LabelSummary {
    pub n_clusters: usize,
    pub n_noise: usize,
    pub sizes: Vec<usize>,
}

/// Number of the first `n` labels that are `label`.
pub open spec fn count_of(labels: Seq<Option<usize>>, label: Option<usize>, n: int) -> nat
    decreases n,
{
    if n <= 0 {
        0
    } else {
        count_of(labels, label, n - 1) + if labels[n - 1] == label {
            1nat
        } else {
            0nat
        }
    }
}

/// One more than the greatest cluster among the first `n` labels, or 0 if
/// none of them names a cluster.
pub open spec fn clusters_among(labels: Seq<Option<usize>>, n: int) -> nat
    decreases n,
{
    if n <= 0 {
        0
    } else {
        let before = clusters_among(labels, n - 1);
        match labels[n - 1] {
            Some(c) => if c >= before {
                (c + 1) as nat
            } else {
                before
            },
            None => before,
        }
    }
}

/// No more labels are counted than there are.
pub proof fn count_of_bounded(labels: Seq<Option<usize>>, label: Option<usize>, n: int)
    ensures
        count_of(labels, label, n) <= if n <= 0 {
            0
        } else {
            n
        },
    decreases n,
{
    if n > 0 {
        count_of_bounded(labels, label, n - 1);
    }
}

/// Counts the clusters, the noise and the size of each cluster among the
/// labels of a density clustering. `None` if a label is the greatest
/// number there is, so that the number of clusters cannot be told.
pub fn summarize_labels(labels: &Vec<Option<usize>>) -> (r: Option<LabelSummary>)
    ensures
        match r {
            Some(s) => {
                &&& forall|i: int| 0 <= i < labels.len() ==> labels[i] != Some(usize::MAX)
                &&& s.n_clusters == clusters_among(labels@, labels.len() as int)
                &&& s.n_noise == count_of(labels@, None, labels.len() as int)
                &&& s.sizes.len() == s.n_clusters
                &&& forall|c: int|
                    0 <= c < s.n_clusters ==> #[trigger] s.sizes[c] == count_of(
                        labels@,
                        Some(c as usize),
                        labels.len() as int,
                    )
            },
            None => exists|i: int| 0 <= i < labels.len() && labels[i] == Some(usize::MAX),
        },
{
    let mut n_clusters: usize = 0;
    let mut n_noise: usize = 0;
    let mut sizes: Vec<usize> = Vec::new();
    let mut i: usize = 0;
    while i < labels.len()
        invariant
            i <= labels.len(),
            forall|j: int| 0 <= j < i ==> labels[j] != Some(usize::MAX),
            n_clusters == clusters_among(labels@, i as int),
            n_noise == count_of(labels@, None, i as int),
            sizes.len() == n_clusters,
            forall|c: int|
                0 <= c < n_clusters ==> #[trigger] sizes[c] == count_of(
                    labels@,
                    Some(c as usize),
                    i as int,
                ),
            forall|c: usize|
                n_clusters <= c ==> #[trigger] count_of(labels@, Some(c), i as int) == 0,
        decreases labels.len() - i,
    {
        match labels[i] {
            None => {
                proof {
                    count_of_bounded(labels@, None, i as int);
                    assert forall|c: usize| n_clusters <= c implies #[trigger] count_of(
                        labels@,
                        Some(c),
                        i + 1,
                    ) == 0 by {
                        assert(count_of(labels@, Some(c), i as int) == 0);
                    }
                    assert forall|c: int| 0 <= c < n_clusters implies #[trigger] sizes[c]
                        == count_of(labels@, Some(c as usize), i + 1) by {
                        assert(sizes[c] == count_of(labels@, Some(c as usize), i as int));
                    }
                }
                n_noise += 1;
            },
            Some(c) => {
                if c == usize::MAX {
                    return None;
                }
                while sizes.len() <= c
                    invariant
                        i < labels.len(),
                        labels[i as int] == Some(c),
                        c < usize::MAX,
                        n_clusters == clusters_among(labels@, i as int),
                        sizes.len() >= n_clusters,
                        forall|j: int|
                            0 <= j < n_clusters ==> #[trigger] sizes[j] == count_of(
                                labels@,
                                Some(j as usize),
                                i as int,
                            ),
                        forall|j: int| n_clusters <= j < sizes.len() ==> #[trigger] sizes[j] == 0,
                        forall|j: usize|
                            n_clusters <= j ==> #[trigger] count_of(labels@, Some(j), i as int)
                                == 0,
                        sizes.len() <= c + 1 || sizes.len() == n_clusters,
                    decreases c + 1 - sizes.len(),
                {
                    sizes.push(0);
                }
                proof {
                    count_of_bounded(labels@, Some(c), i as int);
                }
                let ghost old_sizes = sizes@;
                let ghost old_count = n_clusters;
                assert forall|j: int| 0 <= j < sizes.len() implies #[trigger] old_sizes[j]
                    == count_of(labels@, Some(j as usize), i as int) by {
                    if j >= old_count {
                        assert(count_of(labels@, Some(j as usize), i as int) == 0);
                    } else {
                        assert(sizes[j] == count_of(labels@, Some(j as usize), i as int));
                    }
                }
                sizes.set(c, sizes[c] + 1);
                n_clusters = sizes.len();
                assert forall|j: int| 0 <= j < n_clusters implies #[trigger] sizes[j] == count_of(
                    labels@,
                    Some(j as usize),
                    i + 1,
                ) by {
                    assert(old_sizes[j] == count_of(labels@, Some(j as usize), i as int));
                    if j != c {
                        assert(sizes[j] == old_sizes[j]);
                    }
                }
                assert forall|j: usize| n_clusters <= j implies #[trigger] count_of(
                    labels@,
                    Some(j),
                    i + 1,
                ) == 0 by {
                    assert(count_of(labels@, Some(j), i as int) == 0);
                }
            },
        }
        i += 1;
    }
    Some(LabelSummary { n_clusters, n_noise, sizes })
}

/// Says how many components a principal component analysis keeps, of
/// `n_features` features over `n_samples` samples: what was asked for, or
/// five where nothing was asked for, but no more than there are features
/// and one less than there are samples. Fewer than two features or two
/// samples are refused.
pub fn choose_components(n_samples: usize, n_features: usize, requested: usize) -> (r: Result<
    usize,
    ZError,
>)
    ensures
        match r {
            Ok(n) => {
                &&& n_features >= 2 && n_samples >= 2
                &&& n <= n_features && n <= n_samples - 1
                &&& n == n_features || n == n_samples - 1 || n == if requested == 0 {
                    5
                } else {
                    requested as int
                }
                &&& requested == 0 ==> n <= 5
                &&& requested != 0 ==> n <= requested
            },
            Err(e) => e is Ml && if n_features < 2 {
                e->Ml_0@ == "PCA requires at least 2 features"@
            } else {
                n_samples < 2 && e->Ml_0@ == "PCA requires at least 2 samples"@
            },
        },
{
    if n_features < 2 {
        return Err(ZError::Ml(String::from_str("PCA requires at least 2 features")));
    }
    if n_samples < 2 {
        return Err(ZError::Ml(String::from_str("PCA requires at least 2 samples")));
    }
    let wanted = if requested == 0 {
        5
    } else {
        requested
    };
    let mut n = wanted;
    if n_features < n {
        n = n_features;
    }
    if n_samples - 1 < n {
        n = n_samples - 1;
    }
    Ok(n)
}

} // verus!
