//! Extraction of the listings of a results page. Each listing's fields are
//! read from the document tree into a [`Listing`]; the rules that turn a
//! listing into an [`Item`], or into the error of the first field that fails,
//! are verified over that plain record.
use crate::dateparser::result_view;
use crate::dateparser::DateParser;
use crate::dateparser::ParseError;
use crate::dateparser::ParseErrorView;
use crate::document::attribute;
use crate::document::attribute_of;
use crate::document::document_of;
use crate::document::inner_html_of;
use crate::document::matches_in_document;
use crate::document::matches_in_element;
use crate::document::selector_of;
use crate::document::text_of;
use crate::document::compile_selector;
use crate::document::inner_html;
use crate::document::parse_html;
use crate::document::select_in_document;
use crate::document::select_in_element;
use crate::document::text_content;
use crate::price::price_of;
use crate::price::price_parse;
use crate::price::Price;
use crate::price::PriceView;
use crate::utils::joined;
use crate::utils::normalize;
use crate::utils::reformat_ws;
use crate::utils::strip_prefix;
use crate::utils::trim;
use crate::utils::trim_ws;
use crate::zone::date_of;
use crate::zone::day_before;
use crate::zone::zone_local_of;
use vstd::prelude::*;

verus! {

/// The stamp errors, as the extractor reports them.
pub type DateParseError = ParseError;

pub type DateParseResult<T> = Result<T, DateParseError>;

/// The fields of a listing that can be missing or malformed.
#[derive(Debug, Clone, Copy, PartialEq, Eq)]
pub enum ItemAttribute {
    ID,
    Title,
    Href,
    CompanyAd,
    Img,
    PostedAt,
    Location,
    Direction,
}

/// What went wrong with a listing.
#[derive(Debug, Clone, PartialEq, Eq)]
pub enum ItemParseErrorKind {
    MissingAttribute(ItemAttribute),
    UnexpectedValue(ItemAttribute, String),
    InvalidPrice(String),
    InvalidDate(DateParseError),
}

/// [`ItemParseErrorKind`] with its texts as character sequences.
pub enum ItemParseErrorKindView {
    MissingAttribute(ItemAttribute),
    UnexpectedValue(ItemAttribute, Seq<char>),
    InvalidPrice(Seq<char>),
    InvalidDate(ParseErrorView),
}

impl View for ItemParseErrorKind {
    type V = ItemParseErrorKindView;

    open spec fn view(&self) -> ItemParseErrorKindView {
        match self {
            ItemParseErrorKind::MissingAttribute(a) => ItemParseErrorKindView::MissingAttribute(*a),
            ItemParseErrorKind::UnexpectedValue(a, s) => ItemParseErrorKindView::UnexpectedValue(
                *a,
                s@,
            ),
            ItemParseErrorKind::InvalidPrice(s) => ItemParseErrorKindView::InvalidPrice(s@),
            ItemParseErrorKind::InvalidDate(e) => ItemParseErrorKindView::InvalidDate(e@),
        }
    }
}

/// The first listing of a page that could not be read: its position among
/// the page's listings, its id once that is known, and what went wrong.
#[derive(Debug, Clone, PartialEq, Eq)]
pub struct ItemParseError {
    pub item_idx: usize,
    pub item_id: Option<String>,
    pub error: ItemParseErrorKind,
}

/// [`ItemParseError`] with its texts as character sequences.
pub struct ItemParseErrorView {
    pub item_idx: int,
    pub item_id: Option<Seq<char>>,
    pub error: ItemParseErrorKindView,
}

impl View for ItemParseError {
    type V = ItemParseErrorView;

    open spec fn view(&self) -> ItemParseErrorView {
        ItemParseErrorView {
            item_idx: self.item_idx as int,
            item_id: self.item_id.deep_view(),
            error: self.error@,
        }
    }
}

/// One listing of a results page.
#[derive(Debug, Clone, PartialEq, Eq)]
pub struct Item {
    pub item_id: String,
    pub direction: String,
    pub title: String,
    pub price: Option<Price>,
    pub location: String,
    pub seller: Option<String>,
    pub is_company_ad: bool,
    pub href: String,
    pub thumbnail_url: Option<String>,
    /// The stamp as the page shows it, whitespace collapsed.
    pub posted_at_orig: String,
    /// When the listing was posted, in seconds after the Unix epoch.
    pub posted_at: i64,
}

/// [`Item`] with its texts as character sequences.
pub struct ItemView {
    pub item_id: Seq<char>,
    pub direction: Seq<char>,
    pub title: Seq<char>,
    pub price: Option<PriceView>,
    pub location: Seq<char>,
    pub seller: Option<Seq<char>>,
    pub is_company_ad: bool,
    pub href: Seq<char>,
    pub thumbnail_url: Option<Seq<char>>,
    pub posted_at_orig: Seq<char>,
    pub posted_at: i64,
}

pub open spec fn price_view(p: Option<Price>) -> Option<PriceView> {
    match p {
        Some(q) => Some(q@),
        None => None,
    }
}

impl View for Item {
    type V = ItemView;

    open spec fn view(&self) -> ItemView {
        ItemView {
            item_id: self.item_id@,
            direction: self.direction@,
            title: self.title@,
            price: price_view(self.price),
            location: self.location@,
            seller: self.seller.deep_view(),
            is_company_ad: self.is_company_ad,
            href: self.href@,
            thumbnail_url: self.thumbnail_url.deep_view(),
            posted_at_orig: self.posted_at_orig@,
            posted_at: self.posted_at,
        }
    }
}

/// What the document tree holds for one listing, as plain text: its
/// attributes, the text or inner markup of the first sub-node of each kind,
/// and the inner markup of all its "combined" sub-nodes in the order that
/// scraper's tree walk yields them.
#[derive(Debug, Clone, PartialEq, Eq)]
pub struct Listing {
    pub id: Option<String>,
    pub company_ad: Option<String>,
    pub href: Option<String>,
    pub price_text: Option<String>,
    pub thumbnail: Option<String>,
    pub title_html: Option<String>,
    pub posted_at_html: Option<String>,
    pub combined: Vec<String>,
}

/// [`Listing`] with its texts as character sequences.
pub struct ListingView {
    pub id: Option<Seq<char>>,
    pub company_ad: Option<Seq<char>>,
    pub href: Option<Seq<char>>,
    pub price_text: Option<Seq<char>>,
    pub thumbnail: Option<Seq<char>>,
    pub title_html: Option<Seq<char>>,
    pub posted_at_html: Option<Seq<char>>,
    pub combined: Seq<Seq<char>>,
}

impl View for Listing {
    type V = ListingView;

    open spec fn view(&self) -> ListingView {
        ListingView {
            id: self.id.deep_view(),
            company_ad: self.company_ad.deep_view(),
            href: self.href.deep_view(),
            price_text: self.price_text.deep_view(),
            thumbnail: self.thumbnail.deep_view(),
            title_html: self.title_html.deep_view(),
            posted_at_html: self.posted_at_html.deep_view(),
            combined: self.combined.deep_view(),
        }
    }
}

/// "item_", the prefix of a listing's node id.
pub open spec fn id_prefix() -> Seq<char> {
    seq!['i', 't', 'e', 'm', '_']
}

/// The listing's id: its node id without the prefix, which must be followed
/// by something.
pub open spec fn id_of(l: ListingView) -> Result<Seq<char>, ItemParseErrorKindView> {
    match l.id {
        None => Err(ItemParseErrorKindView::MissingAttribute(ItemAttribute::ID)),
        Some(raw) => if id_prefix().is_prefix_of(raw) && raw.len() > id_prefix().len() {
            Ok(raw.skip(id_prefix().len() as int))
        } else {
            Err(ItemParseErrorKindView::UnexpectedValue(ItemAttribute::ID, raw))
        },
    }
}

/// Whether the listing is a company's: its flag is "1" or "0".
pub open spec fn company_of(l: ListingView) -> Result<bool, ItemParseErrorKindView> {
    match l.company_ad {
        None => Err(ItemParseErrorKindView::MissingAttribute(ItemAttribute::CompanyAd)),
        Some(s) => if s == seq!['1'] {
            Ok(true)
        } else if s == seq!['0'] {
            Ok(false)
        } else {
            Err(ItemParseErrorKindView::UnexpectedValue(ItemAttribute::CompanyAd, s))
        },
    }
}

pub open spec fn href_of(l: ListingView) -> Result<Seq<char>, ItemParseErrorKindView> {
    match l.href {
        None => Err(ItemParseErrorKindView::MissingAttribute(ItemAttribute::Href)),
        Some(h) => Ok(h),
    }
}

/// The price: none without price text or with empty text, else the text read
/// as a price.
pub open spec fn price_field(l: ListingView) -> Result<Option<PriceView>, ItemParseErrorKindView> {
    match l.price_text {
        None => Ok(None),
        Some(t) => if t.len() == 0 {
            Ok(None)
        } else {
            match price_of(t) {
                Some(p) => Ok(Some(p)),
                None => Err(ItemParseErrorKindView::InvalidPrice(t)),
            }
        },
    }
}

/// The title: the title node's markup, trimmed.
pub open spec fn title_of(l: ListingView) -> Result<Seq<char>, ItemParseErrorKindView> {
    match l.title_html {
        None => Err(ItemParseErrorKindView::MissingAttribute(ItemAttribute::Title)),
        Some(t) => Ok(trim(t)),
    }
}

/// The posted-at stamp as shown, whitespace collapsed.
pub open spec fn stamp_text_of(l: ListingView) -> Result<Seq<char>, ItemParseErrorKindView> {
    match l.posted_at_html {
        None => Err(ItemParseErrorKindView::MissingAttribute(ItemAttribute::PostedAt)),
        Some(t) => Ok(normalize(t)),
    }
}

/// The seller: the combined entries after location and direction, each with
/// its whitespace collapsed, joined by spaces; none when there are none.
pub open spec fn seller_of(combined: Seq<Seq<char>>) -> Option<Seq<char>> {
    if combined.len() <= 2 {
        None
    } else {
        Some(joined(combined.skip(2).map_values(|p: Seq<char>| normalize(p))))
    }
}

pub open spec fn item_error(
    i: int,
    id: Option<Seq<char>>,
    kind: ItemParseErrorKindView,
) -> ItemParseErrorView {
    ItemParseErrorView { item_idx: i, item_id: id, error: kind }
}

pub open spec fn items_view(v: Seq<Item>) -> Seq<ItemView> {
    v.map_values(|it: Item| it@)
}

pub open spec fn listings_view(v: Seq<Listing>) -> Seq<ListingView> {
    v.map_values(|l: Listing| l@)
}

/// A page's result with its values viewed.
pub open spec fn page_view(r: Result<Vec<Item>, ItemParseError>) -> Result<
    Seq<ItemView>,
    ItemParseErrorView,
> {
    match r {
        Ok(v) => Ok(items_view(v@)),
        Err(e) => Err(e@),
    }
}

pub const ROW_SELECTOR: &'static str = "a[data-row]";

pub const TITLE_SELECTOR: &'static str = "div .li-title";

pub const PRICE_SELECTOR: &'static str = "p .list_price, .ineuros";

pub const IMAGE_SELECTOR: &'static str = "div .item_image[src]";

pub const POSTED_AT_SELECTOR: &'static str = "div .date_image";

pub const COMBINED_SELECTOR: &'static str = "div .cat_geo > p";

/// Every selector of a results page compiles.
pub open spec fn page_selectors_compile() -> bool {
    &&& selector_of(ROW_SELECTOR@) is Some
    &&& selector_of(TITLE_SELECTOR@) is Some
    &&& selector_of(PRICE_SELECTOR@) is Some
    &&& selector_of(IMAGE_SELECTOR@) is Some
    &&& selector_of(POSTED_AT_SELECTOR@) is Some
    &&& selector_of(COMBINED_SELECTOR@) is Some
}

/// The compiled selector of `css`.
pub open spec fn compiled(css: Seq<char>) -> scraper::Selector {
    selector_of(css)->0
}

/// The inner markup of the first descendant of `e` that `sel` matches.
pub open spec fn first_inner_html_of(e: scraper::ElementRef<'static>, sel: scraper::Selector) -> Option<
    Seq<char>,
> {
    let found = matches_in_element(e, sel);
    if found.len() > 0 {
        Some(inner_html_of(found[0]))
    } else {
        None
    }
}

/// What the listing node `e` holds: its attributes, the text of its first
/// price node, the source of its first thumbnail, the markup of its first
/// title and stamp nodes, and the markup of each of its combined nodes.
pub open spec fn listing_of(e: scraper::ElementRef<'static>) -> ListingView {
    let prices = matches_in_element(e, compiled(PRICE_SELECTOR@));
    let images = matches_in_element(e, compiled(IMAGE_SELECTOR@));
    ListingView {
        id: attribute_of(e, "id"@),
        company_ad: attribute_of(e, "data-company-ad"@),
        href: attribute_of(e, "href"@),
        price_text: if prices.len() > 0 {
            Some(text_of(prices[0]))
        } else {
            None
        },
        thumbnail: if images.len() > 0 {
            attribute_of(images[0], "src"@)
        } else {
            None
        },
        title_html: first_inner_html_of(e, compiled(TITLE_SELECTOR@)),
        posted_at_html: first_inner_html_of(e, compiled(POSTED_AT_SELECTOR@)),
        combined: matches_in_element(e, compiled(COMBINED_SELECTOR@)).map_values(
            |n: scraper::ElementRef<'static>| inner_html_of(n),
        ),
    }
}

/// The listings of a document: one for each listing node, in the order that
/// scraper's tree walk yields them.
pub open spec fn page_listings(doc: scraper::Html) -> Seq<ListingView> {
    matches_in_document(doc, compiled(ROW_SELECTOR@)).map_values(
        |e: scraper::ElementRef<'static>| listing_of(e),
    )
}

/// Reads listings of a results page fetched at one moment in one zone.
pub struct Parser {
    dates: DateParser,
    row: scraper::Selector,
    title: scraper::Selector,
    price: scraper::Selector,
    image: scraper::Selector,
    posted_at: scraper::Selector,
    combined: scraper::Selector,
}

impl Parser {
    #[verifier::type_invariant]
    spec fn selectors_compiled(self) -> bool {
        &&& selector_of(ROW_SELECTOR@) == Some(self.row)
        &&& selector_of(TITLE_SELECTOR@) == Some(self.title)
        &&& selector_of(PRICE_SELECTOR@) == Some(self.price)
        &&& selector_of(IMAGE_SELECTOR@) == Some(self.image)
        &&& selector_of(POSTED_AT_SELECTOR@) == Some(self.posted_at)
        &&& selector_of(COMBINED_SELECTOR@) == Some(self.combined)
    }

    /// The stamp resolver of this parser.
    pub closed spec fn date_parser(&self) -> DateParser {
        self.dates
    }

    /// The fields of a listing after its id, in the order they are read.
    pub open spec fn fields_of(&self, l: ListingView, id: Seq<char>) -> Result<
        ItemView,
        ItemParseErrorKindView,
    > {
        match company_of(l) {
            Err(k) => Err(k),
            Ok(company) => match href_of(l) {
                Err(k) => Err(k),
                Ok(href) => match price_field(l) {
                    Err(k) => Err(k),
                    Ok(price) => match title_of(l) {
                        Err(k) => Err(k),
                        Ok(title) => match stamp_text_of(l) {
                            Err(k) => Err(k),
                            Ok(stamp) => match self.date_parser().resolve(stamp) {
                                Err(e) => Err(ItemParseErrorKindView::InvalidDate(e)),
                                Ok(at) => if l.combined.len() < 1 {
                                    Err(
                                        ItemParseErrorKindView::MissingAttribute(
                                            ItemAttribute::Location,
                                        ),
                                    )
                                } else if l.combined.len() < 2 {
                                    Err(
                                        ItemParseErrorKindView::MissingAttribute(
                                            ItemAttribute::Direction,
                                        ),
                                    )
                                } else {
                                    Ok(
                                        ItemView {
                                            item_id: id,
                                            direction: normalize(l.combined[1]),
                                            title,
                                            price,
                                            location: normalize(l.combined[0]),
                                            seller: seller_of(l.combined),
                                            is_company_ad: company,
                                            href,
                                            thumbnail_url: l.thumbnail,
                                            posted_at_orig: stamp,
                                            posted_at: at,
                                        },
                                    )
                                },
                            },
                        },
                    },
                },
            },
        }
    }

    /// The item of the listing at position `i`, or the error of its first
    /// field that fails; the error carries the id once that is known.
    #[verifier::opaque]
    pub open spec fn listing_result(&self, i: int, l: ListingView) -> Result<
        ItemView,
        ItemParseErrorView,
    > {
        match id_of(l) {
            Err(k) => Err(item_error(i, None, k)),
            Ok(id) => match self.fields_of(l, id) {
                Err(k) => Err(item_error(i, Some(id), k)),
                Ok(item) => Ok(item),
            },
        }
    }

    /// The items of all listings, in order, or the error of the first listing
    /// that fails.
    pub open spec fn page_result(&self, ls: Seq<ListingView>) -> Result<
        Seq<ItemView>,
        ItemParseErrorView,
    >
        decreases ls.len(),
    {
        if ls.len() == 0 {
            Ok(Seq::empty())
        } else {
            match self.page_result(ls.drop_last()) {
                Err(e) => Err(e),
                Ok(items) => match self.listing_result(ls.len() - 1, ls.last()) {
                    Err(e) => Err(e),
                    Ok(item) => Ok(items.push(item)),
                },
            }
        }
    }

    /// A parser for a page fetched at `fetch_time` (seconds after the Unix
    /// epoch), whose stamps are in the zone named `user_tz`. None when the
    /// zone's reading at that moment cannot be had, or when scraper refuses
    /// one of the page's selectors.
    pub fn new(fetch_time: i64, user_tz: &str) -> (r: Option<Parser>)
        ensures
            r is Some <==> zone_local_of(user_tz@, fetch_time) is Some
                && page_selectors_compile(),
            r matches Some(p) ==> {
                &&& p.date_parser().zone() == user_tz@
                &&& p.date_parser().anchor() == fetch_time
                &&& zone_local_of(user_tz@, fetch_time) is Some
                &&& p.date_parser().today() == date_of(zone_local_of(user_tz@, fetch_time)->0)
                &&& p.date_parser().yesterday() == day_before(p.date_parser().today())
            },
    {
        let dates = match DateParser::new(fetch_time, user_tz) {
            Some(d) => d,
            None => return None,
        };
        let row = compile_selector(ROW_SELECTOR)?;
        let title = compile_selector(TITLE_SELECTOR)?;
        let price = compile_selector(PRICE_SELECTOR)?;
        let image = compile_selector(IMAGE_SELECTOR)?;
        let posted_at = compile_selector(POSTED_AT_SELECTOR)?;
        let combined = compile_selector(COMBINED_SELECTOR)?;
        Some(Parser { dates, row, title, price, image, posted_at, combined })
    }

    /// Resolves a posted-at stamp; see [`DateParser::parse`].
    pub fn parse_posted_at(&self, ts: &str) -> (r: DateParseResult<i64>)
        ensures
            result_view(r) == self.date_parser().resolve(ts@),
    {
        self.dates.parse(ts)
    }

    fn company_flag(s: &str) -> (r: Option<bool>)
        ensures
            r == (if s@ == seq!['1'] {
                Some(true)
            } else if s@ == seq!['0'] {
                Some(false)
            } else {
                None
            }),
    {
        proof {
            reveal_strlit("1");
            reveal_strlit("0");
            assert("1"@ =~= seq!['1']);
            assert("0"@ =~= seq!['0']);
        }
        if crate::dateparser::same_text(s, "1") {
            Some(true)
        } else if crate::dateparser::same_text(s, "0") {
            Some(false)
        } else {
            None
        }
    }

    fn join_seller(combined: &Vec<String>) -> (r: Option<String>)
        ensures
            r.deep_view() == seller_of(combined.deep_view()),
    {
        let n = combined.len();
        if n <= 2 {
            return None;
        }
        let ghost parts = combined.deep_view().skip(2).map_values(|p: Seq<char>| normalize(p));
        let mut out = reformat_ws(combined[2].as_str());
        let mut i: usize = 3;
        proof {
            reveal_strlit(" ");
            assert(parts.take(1) =~= seq![parts[0]]);
        }
        while i < n
            invariant
                n == combined@.len(),
                3 <= i <= n,
                parts == combined.deep_view().skip(2).map_values(|p: Seq<char>| normalize(p)),
                out@ == joined(parts.take(i - 2)),
                " "@ == seq![' '],
            decreases n - i,
        {
            let part = reformat_ws(combined[i].as_str());
            out.append(" ");
            out.append(part.as_str());
            proof {
                assert(parts.take(i - 1).drop_last() =~= parts.take(i - 2));
                assert(parts.take(i - 1).last() == part@);
            }
            i = i + 1;
        }
        assert(parts.take(n - 2) =~= parts);
        Some(out)
    }

    /// Turns the listing at position `i` into an item, or into the error of
    /// its first field that fails.
    pub fn extract_item(&self, i: usize, l: &Listing) -> (r: Result<Item, ItemParseError>)
        ensures
            match r {
                Ok(item) => self.listing_result(i as int, l@) == Ok::<
                    ItemView,
                    ItemParseErrorView,
                >(item@),
                Err(e) => self.listing_result(i as int, l@) == Err::<ItemView, ItemParseErrorView>(
                    e@,
                ),
            },
    {
        proof {
            reveal(Parser::listing_result);
            reveal_strlit("item_");
            assert("item_"@ =~= id_prefix());
        }
        let raw_id = match &l.id {
            None => {
                return Err(
                    ItemParseError {
                        item_idx: i,
                        item_id: None,
                        error: ItemParseErrorKind::MissingAttribute(ItemAttribute::ID),
                    },
                );
            },
            Some(s) => s,
        };
        let stripped = match strip_prefix("item_", raw_id.as_str()) {
            Some(id) => {
                if id.as_str().unicode_len() > 0 {
                    Some(id)
                } else {
                    None
                }
            },
            None => None,
        };
        let item_id = match stripped {
            None => {
                return Err(
                    ItemParseError {
                        item_idx: i,
                        item_id: None,
                        error: ItemParseErrorKind::UnexpectedValue(
                            ItemAttribute::ID,
                            raw_id.clone(),
                        ),
                    },
                );
            },
            Some(id) => id,
        };
        match self.fields(l) {
            Ok(fields) => {
                let (is_company_ad, href, price, title, stamp, posted_at, location, direction, seller) =
                    fields;
                Ok(
                    Item {
                        item_id,
                        direction,
                        title,
                        price,
                        location,
                        seller,
                        is_company_ad,
                        href,
                        thumbnail_url: l.thumbnail.clone(),
                        posted_at_orig: stamp,
                        posted_at,
                    },
                )
            },
            Err(kind) => Err(ItemParseError { item_idx: i, item_id: Some(item_id), error: kind }),
        }
    }

    /// The fields of a listing after its id, read in order.
    fn fields(&self, l: &Listing) -> (r: Result<
        (bool, String, Option<Price>, String, String, i64, String, String, Option<String>),
        ItemParseErrorKind,
    >)
        ensures
            forall|id: Seq<char>|
                match #[trigger] self.fields_of(l@, id) {
                    Ok(item) => r matches Ok(f) && {
                        &&& item.is_company_ad == f.0
                        &&& item.href == f.1@
                        &&& item.price == price_view(f.2)
                        &&& item.title == f.3@
                        &&& item.posted_at_orig == f.4@
                        &&& item.posted_at == f.5
                        &&& item.location == f.6@
                        &&& item.direction == f.7@
                        &&& item.seller == f.8.deep_view()
                        &&& item.thumbnail_url == l@.thumbnail
                        &&& item.item_id == id
                    },
                    Err(k) => r matches Err(e) && e@ == k,
                },
    {
        let is_company_ad = match &l.company_ad {
            None => return Err(ItemParseErrorKind::MissingAttribute(ItemAttribute::CompanyAd)),
            Some(s) => match Self::company_flag(s.as_str()) {
                Some(b) => b,
                None => return Err(
                    ItemParseErrorKind::UnexpectedValue(ItemAttribute::CompanyAd, s.clone()),
                ),
            },
        };
        let href = match &l.href {
            None => return Err(ItemParseErrorKind::MissingAttribute(ItemAttribute::Href)),
            Some(h) => h.clone(),
        };
        // No price text and empty price text both mean that no price is shown;
        // text that is there must read as a price.
        let price = match &l.price_text {
            None => None,
            Some(t) => {
                if t.as_str().unicode_len() == 0 {
                    None
                } else {
                    match price_parse(t.as_str()) {
                        Ok(p) => Some(p),
                        Err(kind) => return Err(kind),
                    }
                }
            },
        };
        let title = match &l.title_html {
            None => return Err(ItemParseErrorKind::MissingAttribute(ItemAttribute::Title)),
            Some(t) => trim_ws(t.as_str()),
        };
        let stamp = match &l.posted_at_html {
            None => return Err(ItemParseErrorKind::MissingAttribute(ItemAttribute::PostedAt)),
            Some(t) => reformat_ws(t.as_str()),
        };
        let posted_at = match self.dates.parse(stamp.as_str()) {
            Ok(t) => t,
            Err(e) => return Err(ItemParseErrorKind::InvalidDate(e)),
        };
        if l.combined.len() < 1 {
            return Err(ItemParseErrorKind::MissingAttribute(ItemAttribute::Location));
        }
        if l.combined.len() < 2 {
            return Err(ItemParseErrorKind::MissingAttribute(ItemAttribute::Direction));
        }
        let location = reformat_ws(l.combined[0].as_str());
        let direction = reformat_ws(l.combined[1].as_str());
        let seller = Self::join_seller(&l.combined);
        Ok((is_company_ad, href, price, title, stamp, posted_at, location, direction, seller))
    }

    /// Turns listings into items, in order; the first listing that fails
    /// fails the whole page.
    pub fn extract_items(&self, listings: &Vec<Listing>) -> (r: Result<Vec<Item>, ItemParseError>)
        ensures
            page_view(r) == self.page_result(listings_view(listings@)),
    {
        let mut items: Vec<Item> = Vec::new();
        let mut i: usize = 0;
        assert(listings_view(listings@.take(0)) =~= Seq::<ListingView>::empty());
        assert(items_view(items@) =~= Seq::<ItemView>::empty());
        while i < listings.len()
            invariant
                i <= listings@.len(),
                self.page_result(listings_view(listings@.take(i as int))) == Ok::<
                    Seq<ItemView>,
                    ItemParseErrorView,
                >(items_view(items@)),
            decreases listings@.len() - i,
        {
            let ghost before = listings_view(listings@.take(i as int));
            let ghost after = listings_view(listings@.take(i + 1));
            assert(after.drop_last() =~= before);
            assert(after.last() == listings@[i as int]@);
            match self.extract_item(i, &listings[i]) {
                Ok(item) => {
                    let ghost done = items_view(items@);
                    assert(after.len() == i + 1);
                    assert(self.page_result(after) == Ok::<Seq<ItemView>, ItemParseErrorView>(
                        done.push(item@),
                    ));
                    items.push(item);
                    assert(items_view(items@) =~= done.push(item@));
                },
                Err(e) => {
                    proof {
                        self.lemma_page_error_stays(listings_view(listings@), i as int + 1);
                        assert(listings_view(listings@).take(i + 1) =~= after);
                    }
                    return Err(e);
                },
            }
            i = i + 1;
        }
        assert(listings@.take(listings@.len() as int) =~= listings@);
        Ok(items)
    }

    /// A page whose listings all read yields one item per listing, in order.
    pub proof fn lemma_page_all_items(&self, ls: Seq<ListingView>)
        requires
            forall|i: int| 0 <= i < ls.len() ==> (#[trigger] self.listing_result(i, ls[i])) is Ok,
        ensures
            self.page_result(ls) is Ok,
            self.page_result(ls)->Ok_0.len() == ls.len(),
            forall|i: int|
                0 <= i < ls.len() ==> Ok::<ItemView, ItemParseErrorView>(
                    #[trigger] self.page_result(ls)->Ok_0[i],
                ) == self.listing_result(i, ls[i]),
        decreases ls.len(),
    {
        if ls.len() > 0 {
            let prefix = ls.drop_last();
            assert forall|i: int| 0 <= i < prefix.len() implies (#[trigger] self.listing_result(
                i,
                prefix[i],
            )) is Ok by {
                assert(prefix[i] == ls[i]);
            }
            self.lemma_page_all_items(prefix);
            assert(self.listing_result(ls.len() - 1, ls[ls.len() - 1]) is Ok);
            let items = self.page_result(prefix)->Ok_0;
            assert forall|i: int| 0 <= i < ls.len() implies Ok::<ItemView, ItemParseErrorView>(
                #[trigger] self.page_result(ls)->Ok_0[i],
            ) == self.listing_result(i, ls[i]) by {
                if i < prefix.len() {
                    assert(prefix[i] == ls[i]);
                    assert(Ok::<ItemView, ItemParseErrorView>(items[i]) == self.listing_result(
                        i,
                        prefix[i],
                    ));
                }
            }
        }
    }

    /// When the listings before position `k` read and the one at `k` fails,
    /// the page fails with that listing's error.
    pub proof fn lemma_page_first_failure(&self, ls: Seq<ListingView>, k: int)
        requires
            0 <= k < ls.len(),
            forall|i: int| 0 <= i < k ==> (#[trigger] self.listing_result(i, ls[i])) is Ok,
            self.listing_result(k, ls[k]) is Err,
        ensures
            self.page_result(ls) == Err::<Seq<ItemView>, ItemParseErrorView>(
                self.listing_result(k, ls[k])->Err_0,
            ),
    {
        let before = ls.take(k);
        assert forall|i: int| 0 <= i < before.len() implies (#[trigger] self.listing_result(
            i,
            before[i],
        )) is Ok by {
            assert(before[i] == ls[i]);
        }
        self.lemma_page_all_items(before);
        assert(ls.take(k + 1).drop_last() =~= before);
        assert(ls.take(k + 1).last() == ls[k]);
        self.lemma_page_error_stays(ls, k + 1);
    }

    proof fn lemma_page_error_stays(&self, ls: Seq<ListingView>, k: int)
        requires
            0 <= k <= ls.len(),
            self.page_result(ls.take(k)) is Err,
        ensures
            self.page_result(ls) == self.page_result(ls.take(k)),
        decreases ls.len() - k,
    {
        if k < ls.len() {
            assert(ls.take(k + 1).drop_last() =~= ls.take(k));
            self.lemma_page_error_stays(ls, k + 1);
        } else {
            assert(ls.take(k) =~= ls);
        }
    }

    /// The inner markup of the first descendant that the selector matches.
    fn first_inner_html(element: &scraper::ElementRef, selector: &scraper::Selector) -> (r: Option<
        String,
    >)
        ensures
            r.deep_view() == first_inner_html_of(*element, *selector),
    {
        let found = select_in_element(element, selector);
        if found.len() > 0 {
            Some(inner_html(&found[0]))
        } else {
            None
        }
    }

    /// Reads one listing's fields from its node.
    pub fn read_listing(&self, element: &scraper::ElementRef) -> (r: Listing)
        ensures
            r@ == listing_of(*element),
    {
        proof {
            use_type_invariant(self);
        }
        let prices = select_in_element(element, &self.price);
        let price_text = if prices.len() > 0 {
            Some(text_content(&prices[0]))
        } else {
            None
        };
        let images = select_in_element(element, &self.image);
        let thumbnail = if images.len() > 0 {
            attribute(&images[0], "src")
        } else {
            None
        };
        let nodes = select_in_element(element, &self.combined);
        let mut combined: Vec<String> = Vec::new();
        let mut i: usize = 0;
        while i < nodes.len()
            invariant
                i <= nodes@.len(),
                combined@.len() == i,
                forall|j: int| 0 <= j < i ==> #[trigger] combined@[j]@ == inner_html_of(nodes@[j]),
            decreases nodes@.len() - i,
        {
            combined.push(inner_html(&nodes[i]));
            i = i + 1;
        }
        let r = Listing {
            id: attribute(element, "id"),
            company_ad: attribute(element, "data-company-ad"),
            href: attribute(element, "href"),
            price_text,
            thumbnail,
            title_html: Self::first_inner_html(element, &self.title),
            posted_at_html: Self::first_inner_html(element, &self.posted_at),
            combined,
        };
        assert(r@.combined =~= listing_of(*element).combined);
        r
    }

    /// Reads the fields of every listing of the document, in the order that
    /// scraper's tree walk yields them.
    pub fn read_listings(&self, doc: &scraper::Html) -> (r: Vec<Listing>)
        ensures
            listings_view(r@) == page_listings(*doc),
    {
        proof {
            use_type_invariant(self);
        }
        let rows = select_in_document(doc, &self.row);
        let mut listings: Vec<Listing> = Vec::new();
        let mut i: usize = 0;
        while i < rows.len()
            invariant
                i <= rows@.len(),
                rows@ == matches_in_document(*doc, compiled(ROW_SELECTOR@)),
                listings@.len() == i,
                forall|j: int| 0 <= j < i ==> #[trigger] listings@[j]@ == listing_of(rows@[j]),
            decreases rows@.len() - i,
        {
            listings.push(self.read_listing(&rows[i]));
            i = i + 1;
        }
        assert(listings_view(listings@) =~= page_listings(*doc));
        listings
    }

    /// The items of all listings of the document, or the error of the first
    /// listing that fails.
    pub fn parse_document(&self, doc: &scraper::Html) -> (r: Result<Vec<Item>, ItemParseError>)
        ensures
            page_view(r) == self.page_result(page_listings(*doc)),
    {
        let listings = self.read_listings(doc);
        self.extract_items(&listings)
    }

    /// Parses an HTML document and reads its listings; see
    /// [`Self::parse_document`].
    pub fn parse_from_string(&self, buf: &str) -> (r: Result<Vec<Item>, ItemParseError>)
        ensures
            page_view(r) == self.page_result(page_listings(document_of(buf@))),
    {
        let doc = parse_html(buf);
        self.parse_document(&doc)
    }
}

} // verus!
