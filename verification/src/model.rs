//! The feed model: the in-memory representation of an upstream syndication
//! channel and its items, together with its mathematical view.

use vstd::prelude::*;

verus! {

/// One entry of a channel, corresponding to one source article.
pub struct FeedItem {
    pub title: Option<String>,
    pub link: Option<String>,
    pub author: Option<String>,
    pub pub_date: Option<String>,
    pub content: Option<String>,
    pub description: Option<String>,
    pub categories: Vec<String>,
}

/// The mathematical view of a [`FeedItem`].
pub struct FeedItemView {
    pub title: Option<Seq<char>>,
    pub link: Option<Seq<char>>,
    pub author: Option<Seq<char>>,
    pub pub_date: Option<Seq<char>>,
    pub content: Option<Seq<char>>,
    pub description: Option<Seq<char>>,
    pub categories: Seq<Seq<char>>,
}

impl DeepView for FeedItem {
    type V = FeedItemView;

    open spec fn deep_view(&self) -> FeedItemView {
        FeedItemView {
            title: self.title.deep_view(),
            link: self.link.deep_view(),
            author: self.author.deep_view(),
            pub_date: self.pub_date.deep_view(),
            content: self.content.deep_view(),
            description: self.description.deep_view(),
            categories: self.categories.deep_view(),
        }
    }
}

/// The parsed representation of an upstream channel as a whole.
pub struct Channel {
    pub title: String,
    pub link: String,
    pub language: Option<String>,
    pub last_build_date: Option<String>,
    pub items: Vec<FeedItem>,
}

/// The mathematical view of a [`Channel`].
pub struct ChannelView {
    pub title: Seq<char>,
    pub link: Seq<char>,
    pub language: Option<Seq<char>>,
    pub last_build_date: Option<Seq<char>>,
    pub items: Seq<FeedItemView>,
}

impl DeepView for Channel {
    type V = ChannelView;

    open spec fn deep_view(&self) -> ChannelView {
        ChannelView {
            title: self.title.deep_view(),
            link: self.link.deep_view(),
            language: self.language.deep_view(),
            last_build_date: self.last_build_date.deep_view(),
            items: self.items.deep_view(),
        }
    }
}


/// How many items of `items` carry no category at all. The transformer
/// emits no article for exactly these items.
pub open spec fn uncategorized_count(items: Seq<FeedItemView>) -> nat
    decreases items.len(),
{
    if items.len() == 0 {
        0
    } else {
        uncategorized_count(items.drop_last()) + (if items.last().categories.len() == 0 {
            1nat
        } else {
            0nat
        })
    }
}

/// A sequence in which every item carries a category has no uncategorized
/// items to count.
pub proof fn lemma_uncategorized_count_zero(items: Seq<FeedItemView>)
    requires
        forall|i: int| 0 <= i < items.len() ==> #[trigger] items[i].categories.len() > 0,
    ensures
        uncategorized_count(items) == 0,
    decreases items.len(),
{
    if items.len() > 0 {
        lemma_uncategorized_count_zero(items.drop_last());
    }
}

impl Channel {
    /// How many items lack a category. The transformer skips exactly these
    /// items, so a caller can report them before or after transforming.
    pub fn count_missing_category(&self) -> (n: usize)
        ensures
            n == uncategorized_count(self.deep_view().items),
    {
        let ghost all = self.deep_view().items;
        let mut n: usize = 0;
        let mut i: usize = 0;
        proof {
            assert(all.take(0) =~= Seq::<FeedItemView>::empty());
        }
        while i < self.items.len()
            invariant
                i <= self.items@.len(),
                all == self.deep_view().items,
                all.len() == self.items@.len(),
                n <= i,
                n == uncategorized_count(all.take(i as int)),
            decreases self.items@.len() - i,
        {
            proof {
                assert(all[i as int] == self.items@[i as int].deep_view());
                assert(all.take(i + 1 as int).drop_last() =~= all.take(i as int));
                assert(all.take(i + 1 as int).last() == all[i as int]);
            }
            if self.items[i].categories.len() == 0 {
                n = n + 1;
            }
            i = i + 1;
        }
        proof {
            assert(all.take(self.items@.len() as int) =~= all);
        }
        n
    }
}

} // verus!
