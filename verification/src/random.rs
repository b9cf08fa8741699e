//! The random page: one image of the directory, drawn at random, with a
//! quote drawn at random.

use crate::escape::escaped;
use crate::gallery::{
    address_of, fallback_document, fallback_page, image_address, lightbox, lightbox_of,
};
use crate::page::{styled_document, styled_page};
use crate::scan::{list_images, listing, read_as, Entry, EntryText, ScanError};
use crate::site::{rin, rin_text, wallpapers, wallpapers_text, Site, SiteText};
use crate::templates::{
    ALT_OPEN, HEADER_OPEN, HERO_QUOTE, RANDOM_CLOSE, RANDOM_NAV, RANDOM_SCRIPT, STYLED_CLOSE,
    STYLED_MIDDLE, STYLED_OPEN,
};
use crate::text::{lemma_occurs_between, lemma_occurs_in_wrapped, occurs_in};
use rand::seq::SliceRandom;
use vstd::prelude::*;
use vstd::string::StringExecFns;

verus! {

/// The random number generator of the current thread, `rand::rngs::ThreadRng`.
#[verifier::external_type_specification]
#[verifier::external_body]
pub struct ExThreadRng(rand::rngs::ThreadRng);

/// `rand::thread_rng` hands out the generator of the current thread. Nothing
/// is said of its state. The first call on a thread seeds the generator from
/// the operating system and panics where that fails.
pub assume_specification[ rand::thread_rng ]() -> (rng: rand::rngs::ThreadRng);

/// `rand::seq::SliceRandom::choose` on the slice of `items`: of an empty
/// slice it gives nothing, of any other a reference to one of its elements.
/// Which one is left open.
#[verifier::external_body]
fn pick_one<'a>(items: &'a Vec<String>, rng: &mut rand::rngs::ThreadRng) -> (picked: Option<
    &'a String,
>)
    ensures
        match picked {
            Some(item) => items@.contains(*item),
            None => items@.len() == 0,
        },
{
    items.choose(rng)
}

/// The body of the random page that shows the image `name` with `quote`.
pub open spec fn random_body(site: SiteText, name: Seq<char>, quote: Seq<char>) -> Seq<char> {
    HEADER_OPEN@ + site.random_title + RANDOM_NAV@ + image_address(site, name) + ALT_OPEN@
        + site.image_alt + HERO_QUOTE@ + quote + RANDOM_CLOSE@ + lightbox(site) + RANDOM_SCRIPT@
}

/// The random page that shows the image `name` with `quote`.
pub open spec fn random_document(site: SiteText, name: Seq<char>, quote: Seq<char>) -> Seq<char> {
    styled_document(site.random_title, random_body(site, name, quote))
}

/// `page` is a random page of a directory read as `scan`: it shows one of
/// the listed images with one of the quotes of `site`; where the directory
/// could not be read or holds no image it is the fallback page.
pub open spec fn is_random_page(
    site: SiteText,
    scan: Result<Seq<EntryText>, ScanError>,
    page: Seq<char>,
) -> bool {
    match listing(scan) {
        Ok(names) => if names.len() > 0 {
            exists|i: int, q: int|
                0 <= i < names.len() && 0 <= q < site.quotes.len() && page
                    == #[trigger] random_document(site, names[i], site.quotes[q])
        } else {
            page == fallback_document(site, site.random_title)
        },
        Err(_) => page == fallback_document(site, site.random_title),
    }
}

/// The random page that shows the image `name` with `quote`. The quote
/// goes into the page as it is.
pub fn random_page(site: &Site, name: &str, quote: &str) -> (page: String)
    ensures
        page@ == random_document(site@, name@, quote@),
{
    let mut body = String::from_str(HEADER_OPEN);
    body.append(site.random_title.as_str());
    body.append(RANDOM_NAV);
    body.append(address_of(site, name).as_str());
    body.append(ALT_OPEN);
    body.append(site.image_alt.as_str());
    body.append(HERO_QUOTE);
    body.append(quote);
    body.append(RANDOM_CLOSE);
    body.append(lightbox_of(site).as_str());
    body.append(RANDOM_SCRIPT);
    styled_page(site.random_title.as_str(), body.as_str())
}

/// A random page of a directory read as `scan`: the image and the quote are
/// drawn with the generator of the current thread.
pub fn random_image(site: &Site, scan: &Result<Vec<Entry>, ScanError>) -> (page: String)
    requires
        site.quotes@.len() > 0,
    ensures
        is_random_page(site@, read_as(*scan), page@),
{
    let names = match list_images(scan) {
        Ok(names) => names,
        Err(_) => {
            return fallback_page(site, site.random_title.as_str());
        },
    };
    if names.len() == 0 {
        return fallback_page(site, site.random_title.as_str());
    }
    let mut rng = rand::thread_rng();
    let name = pick_one(&names, &mut rng).unwrap();
    let quote = pick_one(&site.quotes, &mut rng).unwrap();
    let page = random_page(site, name.as_str(), quote.as_str());
    proof {
        let i = choose|i: int| 0 <= i < names@.len() && names@[i] == *name;
        let q = choose|q: int| 0 <= q < site.quotes@.len() && site.quotes@[q] == *quote;
        let listed = listing(read_as(*scan))->Ok_0;
        assert(listed[i] == name@);
        assert(site@.quotes[q] == quote@);
        assert(page@ == random_document(site@, listed[i], site@.quotes[q]));
    }
    page
}

/// The random page of an image holds the address of that image.
pub proof fn lemma_random_document_shows_image(site: SiteText, name: Seq<char>, quote: Seq<char>)
    ensures
        occurs_in(random_document(site, name, quote), image_address(site, name)),
{
    let address = image_address(site, name);
    let before = HEADER_OPEN@ + site.random_title + RANDOM_NAV@;
    let after = ALT_OPEN@ + site.image_alt + HERO_QUOTE@ + quote + RANDOM_CLOSE@ + lightbox(site)
        + RANDOM_SCRIPT@;
    let body = random_body(site, name, quote);
    assert(body =~= before + address + after);
    lemma_occurs_between(before, address, after);
    lemma_occurs_in_wrapped(
        STYLED_OPEN@ + escaped(site.random_title) + STYLED_MIDDLE@,
        body,
        STYLED_CLOSE@,
        address,
    );
}

/// Every random page of a directory with images shows one of the listed
/// images.
pub proof fn lemma_random_page_shows_listed_image(
    site: SiteText,
    scan: Result<Seq<EntryText>, ScanError>,
    page: Seq<char>,
)
    requires
        is_random_page(site, scan, page),
        listing(scan) is Ok,
        listing(scan)->Ok_0.len() > 0,
    ensures
        exists|i: int|
            0 <= i < listing(scan)->Ok_0.len() && occurs_in(
                page,
                image_address(site, #[trigger] listing(scan)->Ok_0[i]),
            ),
{
    let names = listing(scan)->Ok_0;
    let (i, q) = choose|i: int, q: int|
        0 <= i < names.len() && 0 <= q < site.quotes.len() && page == #[trigger] random_document(
            site,
            names[i],
            site.quotes[q],
        );
    lemma_random_document_shows_image(site, names[i], site.quotes[q]);
}

/// Of a directory with one image, every random page shows that image.
pub proof fn lemma_single_image_is_always_shown(
    site: SiteText,
    scan: Result<Seq<EntryText>, ScanError>,
    page: Seq<char>,
    name: Seq<char>,
)
    requires
        is_random_page(site, scan, page),
        listing(scan) == Ok::<Seq<Seq<char>>, ScanError>(seq![name]),
    ensures
        exists|q: int|
            0 <= q < site.quotes.len() && page == random_document(
                site,
                name,
                #[trigger] site.quotes[q],
            ),
        occurs_in(page, image_address(site, name)),
{
    let names = seq![name];
    let (i, q) = choose|i: int, q: int|
        0 <= i < names.len() && 0 <= q < site.quotes.len() && page == #[trigger] random_document(
            site,
            names[i],
            site.quotes[q],
        );
    lemma_random_document_shows_image(site, name, site.quotes[q]);
}

/// A random page of the gallery of wallpapers.
pub fn random_wallpaper(scan: &Result<Vec<Entry>, ScanError>) -> (page: String)
    ensures
        is_random_page(wallpapers_text(), read_as(*scan), page@),
{
    let site = wallpapers();
    assert(site@.quotes.len() == 1);
    random_image(&site, scan)
}

/// A random page of the gallery of pictures of Rin Hoshizora.
pub fn random_rin(scan: &Result<Vec<Entry>, ScanError>) -> (page: String)
    ensures
        is_random_page(rin_text(), read_as(*scan), page@),
{
    let site = rin();
    assert(site@.quotes.len() == 4);
    random_image(&site, scan)
}

} // verus!
