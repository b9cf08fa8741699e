//! The fixed text of the pages. A page is these pieces, in order, with the
//! changing parts between them.

use vstd::prelude::*;

verus! {

/// The bare page up to its title.
pub const MINIMAL_OPEN: &'static str = r#"<!doctype html>
<html lang="en">
<head><meta charset="utf-8"><title>"#;

/// The bare page between its title and its body.
pub const MINIMAL_MIDDLE: &'static str = r#"</title></head>
<body>"#;

/// The end of the bare page.
pub const MINIMAL_CLOSE: &'static str = "</body></html>";

/// The styled page up to its title.
pub const STYLED_OPEN: &'static str = r#"<!doctype html>
<html lang="en">
<head>
<meta charset="utf-8">
<title>"#;

/// The styled page between its title and its body: the style sheet.
pub const STYLED_MIDDLE: &'static str = r#"</title>
<meta name="viewport" content="width=device-width, initial-scale=1" />
<style>
:root {
  --bg: #0d1117; --fg: #e6edf3; --muted: #8b949e; --card: #161b22; --accent: #ffb3c7;
}
* { box-sizing: border-box; }
body { margin: 0; font-family: system-ui, -apple-system, Segoe UI, Roboto, Helvetica, Arial, sans-serif; background: var(--bg); color: var(--fg); }
header { padding: 16px 20px; display: flex; align-items: center; justify-content: space-between; border-bottom: 1px solid #222; }
h1 { margin: 0; font-size: 1.25rem; }
nav { display: flex; gap: 10px; }
.btn { color: var(--bg); background: var(--accent); padding: 8px 12px; border-radius: 8px; text-decoration: none; font-weight: 600; }

.filters { padding: 10px; display: flex; gap: 8px; justify-content: center; }
.filter-btn { background: var(--card); color: var(--fg); border: 1px solid #333; padding: 6px 12px; border-radius: 6px; cursor: pointer; }
.filter-btn:hover { background: var(--accent); color: var(--bg); }

.grid { display: grid; grid-template-columns: repeat(auto-fill, minmax(180px, 1fr)); gap: 12px; padding: 16px; }
.card { display: block; background: var(--card); border-radius: 10px; overflow: hidden; border: 1px solid #222; }
.card img { display: block; width: 100%; height: 180px; object-fit: cover; }

.random { padding: 18px; display: grid; place-items: center; gap: 12px; }
.hero { width: min(720px, 90vw); height: auto; border-radius: 12px; border: 1px solid #222; box-shadow: 0 8px 24px rgba(0,0,0,0.3); cursor: zoom-in; }
.quote { font-size: 1.1rem; color: var(--muted); text-align: center; }

.lightbox { display: none; position: fixed; top: 0; left: 0; width: 100%; height: 100%; background: rgba(0,0,0,0.85); justify-content: center; align-items: center; z-index: 1000; }
.lightbox-img { max-width: 90%; max-height: 90%; border-radius: 8px; }
.close { position: absolute; top: 20px; right: 30px; font-size: 2rem; color: white; cursor: pointer; }
</style>
</head>
<body>
"#;

/// The end of the styled page.
pub const STYLED_CLOSE: &'static str = r#"
</body>
</html>
"#;

/// The notice shown when there is no image, up to the directory.
pub const NOTICE_OPEN: &'static str = "<p>No images found. Add files to <code>";

/// The end of the notice.
pub const NOTICE_CLOSE: &'static str = "</code>.</p>";

/// A page body up to its heading.
pub const HEADER_OPEN: &'static str = r#"
        <header>
            <h1>"#;

/// The gallery body between its heading and the text of the link to the random page.
pub const GALLERY_NAV: &'static str = r#"</h1>
            <nav>
                <a class="btn" href="/">Gallery</a>
                <a class="btn" href="/random">"#;

/// The gallery body from the end of that link to the button that shows every image.
pub const FILTERS_OPEN: &'static str = r#"</a>
            </nav>
        </header>

        <div class="filters">
            <button class="filter-btn" data-filter="all">All</button>
"#;

/// A filter button up to its tag.
pub const FILTER_OPEN: &'static str = r#"            <button class="filter-btn" data-filter=""#;

/// A filter button between its tag and its caption.
pub const FILTER_MIDDLE: &'static str = r#"">"#;

/// The end of a filter button.
pub const FILTER_CLOSE: &'static str = r#"</button>
"#;

/// The gallery body between the filter buttons and the cards.
pub const GRID_OPEN: &'static str = r#"        </div>

        <section class="grid">"#;

/// The gallery body after the cards.
pub const GRID_CLOSE: &'static str = r#"</section>

"#;

/// A card up to the address of its image.
pub const CARD_OPEN: &'static str = r#"<a class="card" href=""#;

/// A card between that address and its tag.
pub const CARD_TAG: &'static str = r#"" data-tag=""#;

/// A card between its tag and the address of its thumbnail.
pub const CARD_IMAGE: &'static str = r#"">
                   <img src=""#;

/// An image element between its address and its alternative text.
pub const ALT_OPEN: &'static str = r#"" alt=""#;

/// The end of a card.
pub const CARD_CLOSE: &'static str = r#"">
               </a>"#;

/// The overlay for the full-size view, up to its alternative text.
pub const LIGHTBOX_OPEN: &'static str = r#"        <div id="lightbox" class="lightbox">
            <span class="close">&times;</span>
            <img class="lightbox-img" src="" alt=""#;

/// The end of the overlay.
pub const LIGHTBOX_CLOSE: &'static str = r#"">
        </div>

"#;

/// The script of the gallery page: a click on a card opens the overlay, a click on a
/// filter button shows the cards of its tag and hides the others.
pub const GALLERY_SCRIPT: &'static str = r#"        <script>
        document.addEventListener('DOMContentLoaded', () => {
            const lightbox = document.getElementById('lightbox');
            const lightboxImg = document.querySelector('.lightbox-img');
            const closeBtn = document.querySelector('.close');

            // Lightbox for gallery cards
            document.querySelectorAll('.card img').forEach(img => {
                img.addEventListener('click', e => {
                    e.preventDefault();
                    if (lightbox && lightboxImg) {
                        lightbox.style.display = 'flex';
                        lightboxImg.src = img.src;
                    }
                });
            });

            if (closeBtn && lightbox) {
                closeBtn.addEventListener('click', () => lightbox.style.display = 'none');
            }
            if (lightbox) {
                lightbox.addEventListener('click', e => {
                    if (e.target === lightbox) lightbox.style.display = 'none';
                });
            }
            document.addEventListener('keydown', e => {
                if (e.key === 'Escape' && lightbox) lightbox.style.display = 'none';
            });

            // Tag filters
            document.querySelectorAll('.filter-btn').forEach(btn => {
                btn.addEventListener('click', () => {
                    const filter = btn.dataset.filter;
                    document.querySelectorAll('.card').forEach(card => {
                        const el = card;
                        if (filter === 'all' || el.dataset.tag === filter) {
                            el.style.display = 'block';
                        } else {
                            el.style.display = 'none';
                        }
                    });
                });
            });
        });
        </script>
        "#;

/// The random page between its heading and the address of its image.
pub const RANDOM_NAV: &'static str = r#"</h1>
            <nav>
                <a class="btn" href="/">← Back to Gallery</a>
                <a class="btn" href="/random">🔁 Another</a>
            </nav>
        </header>

        <section class="random">
            <img class="hero" src=""#;

/// The random page between the alternative text of its image and its quote.
pub const HERO_QUOTE: &'static str = r#"">
            <p class="quote">“"#;

/// The random page after its quote.
pub const RANDOM_CLOSE: &'static str = r#"”</p>
        </section>

"#;

/// The script of the random page: a click on the image opens the overlay.
pub const RANDOM_SCRIPT: &'static str = r#"        <script>
        document.addEventListener('DOMContentLoaded', () => {
            const lightbox = document.getElementById('lightbox');
            const lightboxImg = document.querySelector('.lightbox-img');
            const closeBtn = document.querySelector('.close');

            // Lightbox for hero image
            const hero = document.querySelector('.hero');
            if (hero) {
                hero.addEventListener('click', e => {
                    e.preventDefault();
                    if (lightbox && lightboxImg) {
                        lightbox.style.display = 'flex';
                        lightboxImg.src = hero.getAttribute('src');
                    }
                });
            }

            if (closeBtn && lightbox) {
                closeBtn.addEventListener('click', () => lightbox.style.display = 'none');
            }
            if (lightbox) {
                lightbox.addEventListener('click', e => {
                    if (e.target === lightbox) lightbox.style.display = 'none';
                });
            }
            document.addEventListener('keydown', e => {
                if (e.key === 'Escape' && lightbox) lightbox.style.display = 'none';
            });
        });
        </script>
        "#;

} // verus!
