//! Page-side value types the repository feeds: carousel images, page data
//! holders, the gear catalogue types, the data-endpoint response shape, and
//! the service configuration values. Rendering, transport and credential
//! loading stay outside; these types only hold and convert plain values.

use vstd::prelude::*;

use crate::models::DBImage;

verus! {

/// One carousel image: source path, alt text, subtitle text.
#[derive(Debug)]
pub struct Image {
    pub src: String,
    pub alt: String,
    pub subtitle: String,
}

impl Image {
    /// The carousel image of a stored image row: a missing subtitle
    /// becomes empty text.
    pub fn from_record(img: DBImage) -> (r: Image)
        ensures
            r.src@ == img@.path,
            r.alt@ == img@.alt,
            r.subtitle@ == (match img@.subtitle {
                Some(s) => s,
                None => Seq::<char>::empty(),
            }),
    {
        let DBImage { id: _, path, alt, subtitle } = img;
        Image {
            src: path,
            alt,
            subtitle: match subtitle {
                Some(s) => s,
                None => String::new(),
            },
        }
    }
}

/// An image carousel: its images and its display switches.
#[derive(Debug)]
pub struct CarouselTemplate {
    pub images: Vec<Image>,
    pub auto_scroll: bool,
    pub show_subtitles: bool,
}

/// The landing page data: one carousel.
#[derive(Debug)]
pub struct LandingTemplate {
    pub carousel: CarouselTemplate,
}

/// One board member presented on the about page.
#[derive(Debug)]
pub struct BoardMember {
    pub image_url: String,
    pub name: String,
    pub role: String,
    pub description: String,
}

/// The about page data: the board members.
#[derive(Debug)]
pub struct AboutUsTemplate {
    pub board_members: Vec<BoardMember>,
}

/// The admin status page data.
#[derive(Debug)]
pub struct LoginLogoutTemplate {
    pub logged_in: bool,
}

/// The admin upload page data.
#[derive(Debug)]
pub struct UploadTemplate {
    pub logged_in: bool,
}

/// The videos page data: one embeddable address per video.
#[derive(Debug)]
pub struct VideosTemplate {
    pub video_urls: Vec<String>,
}

/// The query a patrol log page request may carry: a single log heading.
#[derive(Debug)]
pub struct PatrolLogQuery {
    pub log_heading: Option<String>,
}

/// The wear categories of the gear catalogue.
#[derive(Debug, Clone, Copy, PartialEq, Eq, Structural)]
pub enum Apparel {
    TShirt,
    Hoodie,
    Hat,
}

/// The non-wear categories of the gear catalogue.
#[derive(Debug, Clone, Copy, PartialEq, Eq, Structural)]
pub enum Misc {
    Sticker,
    Patch,
    Other,
}

/// The category of one gear article.
#[derive(Debug, Clone, Copy, PartialEq, Eq, Structural)]
pub enum GearType {
    Apparel(Apparel),
    Misc(Misc),
}

/// One gear article: its display order, price and carousel.
#[derive(Debug)]
pub struct Gear {
    pub id: u32,
    pub price: u32,
    pub carousel: CarouselTemplate,
}

/// The gear page data, grouped by section.
#[derive(Debug)]
pub struct PatrolGearTemplate {
    pub tops: Vec<Gear>,
    pub hats: Vec<Gear>,
    pub misc: Vec<Gear>,
}

impl PatrolGearTemplate {
    /// The gear page data from its three sections.
    pub fn new(tops: Vec<Gear>, hats: Vec<Gear>, misc: Vec<Gear>) -> (r: Self)
        ensures
            r.tops@ == tops@,
            r.hats@ == hats@,
            r.misc@ == misc@,
    {
        PatrolGearTemplate { tops, hats, misc }
    }

    /// The tops section.
    pub fn tops(&self) -> (r: &Vec<Gear>)
        ensures
            r@ == self.tops@,
    {
        &self.tops
    }

    /// The hats section.
    pub fn hats(&self) -> (r: &Vec<Gear>)
        ensures
            r@ == self.hats@,
    {
        &self.hats
    }

    /// The miscellaneous section.
    pub fn misc(&self) -> (r: &Vec<Gear>)
        ensures
            r@ == self.misc@,
    {
        &self.misc
    }
}

/// The status of a data-endpoint response.
#[derive(Debug, Clone, Copy, PartialEq, Eq, Structural)]
enum Status {
    Error,
    Success,
}

/// The body of a data-endpoint response: a status and a message.
#[derive(Debug)]
pub struct DataResponse {
    status: Status,
    message: String,
}

impl DataResponse {
    /// Whether the response reports success.
    pub closed spec fn is_success_spec(&self) -> bool {
        self.status == Status::Success
    }

    /// The response message.
    pub closed spec fn spec_message(&self) -> Seq<char> {
        self.message@
    }

    /// Whether the response reports success.
    pub fn is_success(&self) -> (r: bool)
        ensures
            r == self.is_success_spec(),
    {
        self.status == Status::Success
    }

    /// The response message.
    pub fn message(&self) -> (r: &str)
        ensures
            r@ == self.spec_message(),
    {
        self.message.as_str()
    }

    /// An error response with its transport status code; a missing code
    /// means an internal error.
    pub fn error(message: String, code: Option<u16>) -> (r: (u16, DataResponse))
        ensures
            r.0 == (match code {
                Some(c) => c,
                None => 500u16,
            }),
            !r.1.is_success_spec(),
            r.1.spec_message() == message@,
    {
        (
            match code {
                Some(c) => c,
                None => 500,
            },
            DataResponse { status: Status::Error, message },
        )
    }

    /// A success response; its transport status code reports plain
    /// success.
    pub fn success(message: String) -> (r: (u16, DataResponse))
        ensures
            r.0 == 200u16,
            r.1.is_success_spec(),
            r.1.spec_message() == message@,
    {
        (200, DataResponse { status: Status::Success, message })
    }

}

/// The ports a service redirects between.
#[derive(Debug, Clone, Copy, PartialEq, Eq, Structural)]
pub struct Ports {
    pub http: u16,
    pub https: u16,
}

/// The configuration values the service starts with.
#[derive(Debug)]
pub struct Config {
    pub database_url: String,
    pub jwt_secret: String,
}

/// The extension a soft authentication layer attaches to every request.
#[derive(Debug, Clone, Copy, PartialEq, Eq, Structural)]
pub struct SoftAuthExtension {
    pub is_logged_in: bool,
}

/// The administrator credentials the service holds.
#[derive(Debug)]
pub struct AdminCredentials {
    password: String,
}

impl AdminCredentials {
    /// Credentials holding the given password.
    pub fn new(password: String) -> (r: Self)
        ensures
            r.spec_password() == password@,
    {
        AdminCredentials { password }
    }

    /// The held password.
    pub closed spec fn spec_password(&self) -> Seq<char> {
        self.password@
    }

    /// Whether a submitted password matches the held one: the login
    /// decision.
    pub fn accepts(&self, submitted: &str) -> (r: bool)
        ensures
            r == (self.spec_password() == submitted@),
    {
        let s = submitted.to_owned();
        self.password == s
    }
}

} // verus!
