//! The gallery page: one card for each image, the filter buttons, and the
//! notice that takes the place of the page where there is no image.

use crate::escape::{escaped, html_escape};
use crate::page::{minimal_document, minimal_page, styled_document, styled_page};
use crate::scan::{list_images, listing, read_as, texts, Entry, EntryText, ScanError};
use crate::site::{FilterText, Site, SiteText};
use crate::tags::{classify, tag_of};
use crate::templates::{
    ALT_OPEN, CARD_CLOSE, CARD_IMAGE, CARD_OPEN, CARD_TAG, FILTERS_OPEN, FILTER_CLOSE,
    FILTER_MIDDLE, FILTER_OPEN, GALLERY_NAV, GALLERY_SCRIPT, GRID_CLOSE, GRID_OPEN, HEADER_OPEN,
    LIGHTBOX_CLOSE, LIGHTBOX_OPEN, NOTICE_CLOSE, NOTICE_OPEN,
};
use vstd::prelude::*;
use vstd::string::StringExecFns;

verus! {

/// The address of the image `name`: the prefix, a slash, the name escaped.
pub open spec fn image_address(site: SiteText, name: Seq<char>) -> Seq<char> {
    site.url_prefix + "/"@ + escaped(name)
}

/// The card of the image `name`: a link to the image around its thumbnail,
/// marked with the image's tag.
pub open spec fn card(site: SiteText, name: Seq<char>) -> Seq<char> {
    CARD_OPEN@ + image_address(site, name) + CARD_TAG@ + tag_of(site, name) + CARD_IMAGE@
        + image_address(site, name) + ALT_OPEN@ + site.image_alt + CARD_CLOSE@
}

/// The cards of `names`, in the order of `names`.
pub open spec fn grid(site: SiteText, names: Seq<Seq<char>>) -> Seq<char>
    decreases names.len(),
{
    if names.len() == 0 {
        Seq::empty()
    } else {
        grid(site, names.drop_last()) + card(site, names.last())
    }
}

/// The button of `filter`.
pub open spec fn filter_button(filter: FilterText) -> Seq<char> {
    FILTER_OPEN@ + filter.tag + FILTER_MIDDLE@ + filter.caption + FILTER_CLOSE@
}

/// The buttons of `filters`, in the order of `filters`.
pub open spec fn filter_buttons(filters: Seq<FilterText>) -> Seq<char>
    decreases filters.len(),
{
    if filters.len() == 0 {
        Seq::empty()
    } else {
        filter_buttons(filters.drop_last()) + filter_button(filters.last())
    }
}

/// The overlay in which an image is shown in full size.
pub open spec fn lightbox(site: SiteText) -> Seq<char> {
    LIGHTBOX_OPEN@ + site.full_view_alt + LIGHTBOX_CLOSE@
}

/// The body of the gallery page for the images `names`.
pub open spec fn gallery_body(site: SiteText, names: Seq<Seq<char>>) -> Seq<char> {
    HEADER_OPEN@ + site.gallery_heading + GALLERY_NAV@ + site.random_link + FILTERS_OPEN@
        + filter_buttons(site.filters) + GRID_OPEN@ + grid(site, names) + GRID_CLOSE@ + lightbox(
        site,
    ) + GALLERY_SCRIPT@
}

/// What a page says in place of images: that none was found, and where they
/// belong.
pub open spec fn notice(site: SiteText) -> Seq<char> {
    NOTICE_OPEN@ + site.image_dir + NOTICE_CLOSE@
}

/// The page that stands for a gallery without images: the bare page with
/// the notice.
pub open spec fn fallback_document(site: SiteText, title: Seq<char>) -> Seq<char> {
    minimal_document(title, notice(site))
}

/// The gallery page of a directory read as `scan`: the styled page with a
/// card for each listed image, and the fallback page where the directory
/// could not be read or holds no image.
pub open spec fn gallery_document(
    site: SiteText,
    scan: Result<Seq<EntryText>, ScanError>,
) -> Seq<char> {
    match listing(scan) {
        Ok(names) => if names.len() > 0 {
            styled_document(site.gallery_title, gallery_body(site, names))
        } else {
            fallback_document(site, site.gallery_title)
        },
        Err(_) => fallback_document(site, site.gallery_title),
    }
}

/// The address under which the image `name` is served.
pub fn address_of(site: &Site, name: &str) -> (address: String)
    ensures
        address@ == image_address(site@, name@),
{
    let mut address = site.url_prefix.clone();
    address.append("/");
    address.append(html_escape(name).as_str());
    address
}

/// The card of the image `name`.
pub fn card_of(site: &Site, name: &str) -> (html: String)
    ensures
        html@ == card(site@, name@),
{
    let address = address_of(site, name);
    let mut html = String::from_str(CARD_OPEN);
    html.append(address.as_str());
    html.append(CARD_TAG);
    html.append(classify(site, name));
    html.append(CARD_IMAGE);
    html.append(address.as_str());
    html.append(ALT_OPEN);
    html.append(site.image_alt.as_str());
    html.append(CARD_CLOSE);
    html
}

/// The cards of `names`, in the order of `names`.
pub fn grid_of(site: &Site, names: &Vec<String>) -> (html: String)
    ensures
        html@ == grid(site@, texts(names@)),
{
    let mut html = String::new();
    let mut i: usize = 0;
    assert(texts(names@).take(0) =~= Seq::<Seq<char>>::empty());
    while i < names.len()
        invariant
            i <= names@.len(),
            html@ == grid(site@, texts(names@).take(i as int)),
        decreases names@.len() - i,
    {
        proof {
            let shown = texts(names@).take(i + 1);
            assert(shown.drop_last() == texts(names@).take(i as int));
            assert(shown.last() == names@[i as int]@);
        }
        html.append(card_of(site, names[i].as_str()).as_str());
        i += 1;
    }
    assert(texts(names@).take(names@.len() as int) == texts(names@));
    html
}

/// The filter buttons of the gallery.
pub fn buttons_of(site: &Site) -> (html: String)
    ensures
        html@ == filter_buttons(site@.filters),
{
    let mut html = String::new();
    let mut i: usize = 0;
    assert(site@.filters.take(0) =~= Seq::<FilterText>::empty());
    while i < site.filters.len()
        invariant
            i <= site.filters@.len(),
            html@ == filter_buttons(site@.filters.take(i as int)),
        decreases site.filters@.len() - i,
    {
        proof {
            let shown = site@.filters.take(i + 1);
            assert(shown.drop_last() == site@.filters.take(i as int));
            assert(shown.last() == site.filters@[i as int]@);
        }
        let filter = &site.filters[i];
        html.append(FILTER_OPEN);
        html.append(filter.tag.as_str());
        html.append(FILTER_MIDDLE);
        html.append(filter.caption.as_str());
        html.append(FILTER_CLOSE);
        assert(html@ == filter_buttons(site@.filters.take(i as int)) + filter_button(filter@));
        i += 1;
    }
    assert(site@.filters.take(site@.filters.len() as int) == site@.filters);
    html
}

/// The overlay in which an image is shown in full size.
pub fn lightbox_of(site: &Site) -> (html: String)
    ensures
        html@ == lightbox(site@),
{
    let mut html = String::from_str(LIGHTBOX_OPEN);
    html.append(site.full_view_alt.as_str());
    html.append(LIGHTBOX_CLOSE);
    html
}

/// The fallback page under the title `title`.
pub fn fallback_page(site: &Site, title: &str) -> (page: String)
    ensures
        page@ == fallback_document(site@, title@),
{
    let mut inner = String::from_str(NOTICE_OPEN);
    inner.append(site.image_dir.as_str());
    inner.append(NOTICE_CLOSE);
    minimal_page(title, inner.as_str())
}

/// The gallery page of a directory read as `scan`.
pub fn gallery(site: &Site, scan: &Result<Vec<Entry>, ScanError>) -> (page: String)
    ensures
        page@ == gallery_document(site@, read_as(*scan)),
{
    let names = match list_images(scan) {
        Ok(names) => names,
        Err(_) => {
            return fallback_page(site, site.gallery_title.as_str());
        },
    };
    if names.len() == 0 {
        return fallback_page(site, site.gallery_title.as_str());
    }
    let mut body = String::from_str(HEADER_OPEN);
    body.append(site.gallery_heading.as_str());
    body.append(GALLERY_NAV);
    body.append(site.random_link.as_str());
    body.append(FILTERS_OPEN);
    body.append(buttons_of(site).as_str());
    body.append(GRID_OPEN);
    body.append(grid_of(site, &names).as_str());
    body.append(GRID_CLOSE);
    body.append(lightbox_of(site).as_str());
    body.append(GALLERY_SCRIPT);
    styled_page(site.gallery_title.as_str(), body.as_str())
}

} // verus!
