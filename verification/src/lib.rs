pub mod normalize;
pub mod render;
pub mod words;

pub use normalize::find_dot;
pub use normalize::normalize;
pub use normalize::split_on_decimal_point;
pub use normalize::Normalized;
pub use render::capitalise_first_letter;
pub use render::number_to_words;
pub use words::below_hundred_to_words;
pub use words::handle_tens;
pub use words::integer_part_words;
pub use words::ones_str;
pub use words::period_to_words;
pub use words::scale_str;
pub use words::teens_str;
pub use words::tens_str;
