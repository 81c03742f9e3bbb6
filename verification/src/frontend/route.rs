//! The pages of the storefront and the addresses that name them.

use vstd::prelude::*;
use vstd::string::*;

verus! {

/// The pages of a merchant.
#[derive(Debug, Clone, Copy, PartialEq, Eq, Structural)]
pub enum MerchantSection {
    Products,
    Shipments,
}

/// The pages of a consumer.
#[derive(Debug, Clone, Copy, PartialEq, Eq, Structural)]
pub enum ConsumerSection {
    Products,
    Purchases,
}

/// A page of the storefront.
#[derive(Debug, Clone, Copy, PartialEq, Eq, Structural)]
pub enum Route {
    Landing,
    Merchant(MerchantSection),
    Consumer(ConsumerSection),
    NotFound,
}

impl Route {
    /// The path that names the page, without a leading slash.
    pub open spec fn spec_path(self) -> Seq<char> {
        match self {
            Route::Landing => ""@,
            Route::Merchant(MerchantSection::Products) => "merchant/products"@,
            Route::Merchant(MerchantSection::Shipments) => "merchant/shipments"@,
            Route::Consumer(ConsumerSection::Products) => "consumer/products"@,
            Route::Consumer(ConsumerSection::Purchases) => "consumer/purchases"@,
            Route::NotFound => "404"@,
        }
    }

    /// The path that names the page, without a leading slash.
    pub fn to_string(&self) -> (r: String)
        ensures
            r@ == self.spec_path(),
    {
        match self {
            Route::Landing => String::from_str(""),
            Route::Merchant(section) => match section {
                MerchantSection::Products => String::from_str("merchant/products"),
                MerchantSection::Shipments => String::from_str("merchant/shipments"),
            },
            Route::Consumer(section) => match section {
                ConsumerSection::Products => String::from_str("consumer/products"),
                ConsumerSection::Purchases => String::from_str("consumer/purchases"),
            },
            Route::NotFound => String::from_str("404"),
        }
    }

    /// The link to the page below `root_path`: a slash and the page's path,
    /// with the root path and another slash between them where the
    /// storefront is not at the root.
    pub open spec fn spec_link(self, root_path: Seq<char>) -> Seq<char> {
        if root_path.len() == 0 {
            "/"@ + self.spec_path()
        } else {
            "/"@ + root_path + "/"@ + self.spec_path()
        }
    }

    /// The link to the page below `root_path`.
    pub fn link(&self, root_path: &str) -> (r: String)
        ensures
            r@ == self.spec_link(root_path@),
    {
        let path = self.to_string();
        if root_path.is_empty() {
            String::from_str("/").concat(path.as_str())
        } else {
            String::from_str("/").concat(root_path).concat("/").concat(path.as_str())
        }
    }

    /// The page that the segments of a path name. A page other than the
    /// landing page is shown only while a wallet is connected; without one
    /// the visitor is sent to the landing page.
    pub open spec fn spec_from_segments(segments: Seq<Seq<char>>, connected: bool) -> Route {
        let named = if segments.len() == 1 && (segments[0] == ""@ || segments[0] == "/"@) {
            Route::Landing
        } else if segments.len() == 2 && segments[0] == "merchant"@ {
            if segments[1] == "products"@ {
                Route::Merchant(MerchantSection::Products)
            } else if segments[1] == "shipments"@ {
                Route::Merchant(MerchantSection::Shipments)
            } else {
                Route::NotFound
            }
        } else if segments.len() == 2 && segments[0] == "consumer"@ {
            if segments[1] == "products"@ {
                Route::Consumer(ConsumerSection::Products)
            } else if segments[1] == "purchases"@ {
                Route::Consumer(ConsumerSection::Purchases)
            } else {
                Route::NotFound
            }
        } else {
            Route::NotFound
        };
        match named {
            Route::Landing => Route::Landing,
            Route::NotFound => Route::NotFound,
            _ => if connected {
                named
            } else {
                Route::Landing
            },
        }
    }

    /// The page that the segments of a path name, the segments being what
    /// stands between the slashes after the root path.
    pub fn from_segments(segments: &Vec<String>, connected: bool) -> (r: Route)
        ensures
            r == Route::spec_from_segments(Seq::new(segments@.len(), |i: int| segments@[i]@), connected),
    {
        let ghost views = Seq::new(segments@.len(), |i: int| segments@[i]@);
        let named = if segments.len() == 1 {
            assert(views[0] == segments@[0]@);
            if segments[0] == String::from_str("") || segments[0] == String::from_str("/") {
                Route::Landing
            } else {
                Route::NotFound
            }
        } else if segments.len() == 2 {
            assert(views[0] == segments@[0]@);
            assert(views[1] == segments@[1]@);
            if segments[0] == String::from_str("merchant") {
                if segments[1] == String::from_str("products") {
                    Route::Merchant(MerchantSection::Products)
                } else if segments[1] == String::from_str("shipments") {
                    Route::Merchant(MerchantSection::Shipments)
                } else {
                    Route::NotFound
                }
            } else if segments[0] == String::from_str("consumer") {
                if segments[1] == String::from_str("products") {
                    Route::Consumer(ConsumerSection::Products)
                } else if segments[1] == String::from_str("purchases") {
                    Route::Consumer(ConsumerSection::Purchases)
                } else {
                    Route::NotFound
                }
            } else {
                Route::NotFound
            }
        } else {
            Route::NotFound
        };
        match named {
            Route::Landing => Route::Landing,
            Route::NotFound => Route::NotFound,
            _ => if connected {
                named
            } else {
                Route::Landing
            },
        }
    }

    /// The page that a path names below `root_path`. The path is cut at its
    /// slashes; what stands before the first slash is left out, and so is
    /// the segment of the root path where the storefront is not at the
    /// root.
    pub fn from_pathname(pathname: &str, root_path: &str, connected: bool) -> (r: Route)
        ensures
            r == Route::spec_from_segments(
                spec_segments_after(
                    pathname@,
                    if root_path@.len() == 0 {
                        1
                    } else {
                        2
                    },
                ),
                connected,
            ),
    {
        let all = split_path(pathname);
        let skipped: usize = if root_path.is_empty() {
            1
        } else {
            2
        };
        let ghost cut = spec_segments(pathname@);
        let mut kept: Vec<String> = Vec::new();
        let mut k: usize = 0;
        while k < all.len()
            invariant
                k <= all@.len(),
                all@.len() == cut.len(),
                forall|i: int| 0 <= i < all@.len() ==> (#[trigger] all@[i])@ == cut[i],
                kept@.len() == (if k >= skipped {
                    k - skipped
                } else {
                    0
                }),
                forall|i: int| 0 <= i < kept@.len() ==> (#[trigger] kept@[i])@ == cut[i + skipped],
            decreases all@.len() - k,
        {
            if k >= skipped {
                kept.push(all[k].clone());
            }
            k += 1;
        }
        proof {
            assert(Seq::new(kept@.len(), |i: int| kept@[i]@) =~= spec_segments_after(
                pathname@,
                skipped as nat,
            ));
        }
        Route::from_segments(&kept, connected)
    }
}

/// The segments of a path but for the first `skipped`.
pub open spec fn spec_segments_after(path: Seq<char>, skipped: nat) -> Seq<Seq<char>> {
    if spec_segments(path).len() >= skipped {
        spec_segments(path).skip(skipped as int)
    } else {
        Seq::empty()
    }
}

/// What stands between the slashes of a path, in order. A path without a
/// slash is one segment, and an empty path is one empty segment.
pub open spec fn spec_segments(path: Seq<char>) -> Seq<Seq<char>>
    decreases path.len(),
{
    if path.len() == 0 {
        seq![Seq::<char>::empty()]
    } else {
        let before = spec_segments(path.drop_last());
        if path.last() == '/' {
            before.push(Seq::<char>::empty())
        } else {
            before.drop_last().push(before.last().push(path.last()))
        }
    }
}

/// What stands between the slashes of a path, in order.
pub fn split_path(path: &str) -> (r: Vec<String>)
    ensures
        r@.len() == spec_segments(path@).len(),
        forall|i: int| 0 <= i < r@.len() ==> (#[trigger] r@[i])@ == spec_segments(path@)[i],
{
    let n = path.unicode_len();
    let mut done: Vec<String> = Vec::new();
    let mut start: usize = 0;
    let mut i: usize = 0;
    while i < n
        invariant
            n == path@.len(),
            start <= i <= n,
            spec_segments(path@.take(i as int)).len() == done@.len() + 1,
            forall|k: int|
                0 <= k < done@.len() ==> (#[trigger] done@[k])@ == spec_segments(
                    path@.take(i as int),
                )[k],
            spec_segments(path@.take(i as int)).last() == path@.subrange(start as int, i as int),
        decreases n - i,
    {
        let ghost before = spec_segments(path@.take(i as int));
        proof {
            assert(path@.take(i + 1).drop_last() =~= path@.take(i as int));
            assert(path@.take(i + 1).last() == path@[i as int]);
        }
        let c = path.get_char(i);
        if c == '/' {
            done.push(String::from_str(path.substring_char(start, i)));
            start = i + 1;
            proof {
                assert(path@.subrange(start as int, i + 1) =~= Seq::<char>::empty());
            }
        } else {
            proof {
                assert(path@.subrange(start as int, i + 1) =~= path@.subrange(
                    start as int,
                    i as int,
                ).push(path@[i as int]));
            }
        }
        i += 1;
    }
    proof {
        assert(path@.take(n as int) =~= path@);
    }
    done.push(String::from_str(path.substring_char(start, n)));
    done
}

/// Whether a text holds no slash.
pub open spec fn has_no_slash(text: Seq<char>) -> bool {
    forall|i: int| 0 <= i < text.len() ==> text[i] != '/'
}

/// A path has at least one segment.
pub proof fn lemma_segments_nonempty(path: Seq<char>)
    ensures
        spec_segments(path).len() >= 1,
    decreases path.len(),
{
    if path.len() > 0 {
        lemma_segments_nonempty(path.drop_last());
    }
}

/// A text without a slash is one segment.
pub proof fn lemma_one_segment(text: Seq<char>)
    requires
        has_no_slash(text),
    ensures
        spec_segments(text) == seq![text],
    decreases text.len(),
{
    if text.len() > 0 {
        let rest = text.drop_last();
        assert forall|i: int| 0 <= i < rest.len() implies rest[i] != '/' by {
            assert(rest[i] == text[i]);
        }
        lemma_one_segment(rest);
        assert(text.last() == text[text.len() - 1]);
        assert(seq![rest].drop_last().push(rest.push(text.last())) =~= seq![text]) by {
            assert(rest.push(text.last()) =~= text);
        }
    } else {
        assert(text =~= Seq::<char>::empty());
    }
}

/// The segments of two paths that a slash joins are the segments of the one
/// followed by those of the other.
pub proof fn lemma_segments_join(a: Seq<char>, b: Seq<char>)
    ensures
        spec_segments(a.push('/') + b) == spec_segments(a) + spec_segments(b),
    decreases b.len(),
{
    let whole = a.push('/') + b;
    if b.len() == 0 {
        assert(whole =~= a.push('/'));
        assert(a.push('/').drop_last() =~= a);
        assert(spec_segments(b) =~= seq![Seq::<char>::empty()]);
        assert(spec_segments(a).push(Seq::<char>::empty()) =~= spec_segments(a) + spec_segments(
            b,
        ));
    } else {
        let rest = b.drop_last();
        lemma_segments_join(a, rest);
        lemma_segments_nonempty(rest);
        assert(whole.drop_last() =~= a.push('/') + rest);
        assert(whole.last() == b.last());
        let before = spec_segments(a) + spec_segments(rest);
        if b.last() == '/' {
            assert(before.push(Seq::<char>::empty()) =~= spec_segments(a) + spec_segments(
                rest,
            ).push(Seq::<char>::empty()));
        } else {
            assert(before.last() == spec_segments(rest).last());
            assert(before.drop_last() =~= spec_segments(a) + spec_segments(rest).drop_last());
            assert(before.drop_last().push(before.last().push(b.last())) =~= spec_segments(a)
                + spec_segments(rest).drop_last().push(
                spec_segments(rest).last().push(b.last()),
            ));
        }
    }
}

/// The segments of a link, after those that `from_pathname` leaves out, are
/// the segments of the page's path.
pub proof fn lemma_link_segments(route: Route, root_path: Seq<char>)
    requires
        has_no_slash(root_path),
    ensures
        spec_segments_after(
            route.spec_link(root_path),
            if root_path.len() == 0 {
                1
            } else {
                2
            },
        ) == spec_segments(route.spec_path()),
{
    reveal_strlit("/");
    let none = Seq::<char>::empty();
    let path = route.spec_path();
    assert("/"@ =~= none.push('/'));
    assert(spec_segments(none) =~= seq![none]);
    if root_path.len() == 0 {
        lemma_segments_join(none, path);
        assert((seq![none] + spec_segments(path)).skip(1) =~= spec_segments(path));
    } else {
        lemma_segments_join(none, root_path);
        lemma_one_segment(root_path);
        let front = none.push('/') + root_path;
        assert(route.spec_link(root_path) =~= front.push('/') + path);
        lemma_segments_join(front, path);
        assert(spec_segments(front) =~= seq![none, root_path]);
        assert((seq![none, root_path] + spec_segments(path)).skip(2) =~= spec_segments(path));
    }
}

/// A link names the page it was made for: read back below the same root
/// path, which holds no slash, it gives the page, as long as a wallet is
/// connected or the page is the landing page or the page for what is not
/// found.
pub proof fn law_link_reads_back(route: Route, root_path: Seq<char>, connected: bool)
    requires
        has_no_slash(root_path),
        connected || route is Landing || route is NotFound,
    ensures
        Route::spec_from_segments(
            spec_segments_after(
                route.spec_link(root_path),
                if root_path.len() == 0 {
                    1
                } else {
                    2
                },
            ),
            connected,
        ) == route,
{
    lemma_link_segments(route, root_path);
    reveal_strlit("");
    reveal_strlit("/");
    reveal_strlit("404");
    reveal_strlit("merchant");
    reveal_strlit("consumer");
    reveal_strlit("products");
    reveal_strlit("shipments");
    reveal_strlit("purchases");
    reveal_strlit("merchant/products");
    reveal_strlit("merchant/shipments");
    reveal_strlit("consumer/products");
    reveal_strlit("consumer/purchases");
    let path = route.spec_path();
    assert(has_no_slash("merchant"@));
    assert(has_no_slash("consumer"@));
    assert(has_no_slash("products"@));
    assert(has_no_slash("shipments"@));
    assert(has_no_slash("purchases"@));
    assert(has_no_slash("404"@));
    assert("merchant"@[0] != "consumer"@[0]);
    assert("products"@.len() != "shipments"@.len());
    assert("products"@[1] != "purchases"@[1]);
    assert("404"@.len() != ""@.len() && "404"@.len() != "/"@.len());
    match route {
        Route::Landing => {
            assert(path =~= Seq::<char>::empty());
            assert(spec_segments(path) =~= seq![path]);
        },
        Route::NotFound => {
            lemma_one_segment("404"@);
        },
        Route::Merchant(MerchantSection::Products) => {
            assert(path =~= "merchant"@.push('/') + "products"@);
            lemma_segments_join("merchant"@, "products"@);
            lemma_one_segment("merchant"@);
            lemma_one_segment("products"@);
            assert(spec_segments(path) =~= seq!["merchant"@, "products"@]);
        },
        Route::Merchant(MerchantSection::Shipments) => {
            assert(path =~= "merchant"@.push('/') + "shipments"@);
            lemma_segments_join("merchant"@, "shipments"@);
            lemma_one_segment("merchant"@);
            lemma_one_segment("shipments"@);
            assert(spec_segments(path) =~= seq!["merchant"@, "shipments"@]);
        },
        Route::Consumer(ConsumerSection::Products) => {
            assert(path =~= "consumer"@.push('/') + "products"@);
            lemma_segments_join("consumer"@, "products"@);
            lemma_one_segment("consumer"@);
            lemma_one_segment("products"@);
            assert(spec_segments(path) =~= seq!["consumer"@, "products"@]);
        },
        Route::Consumer(ConsumerSection::Purchases) => {
            assert(path =~= "consumer"@.push('/') + "purchases"@);
            lemma_segments_join("consumer"@, "purchases"@);
            lemma_one_segment("consumer"@);
            lemma_one_segment("purchases"@);
            assert(spec_segments(path) =~= seq!["consumer"@, "purchases"@]);
        },
    }
}

} // verus!
