//! Verified core of a small HTTP proxy that lets a browser run SQL
//! queries against Postgres: request-head parsing, routing, response
//! framing, JSON rendering of result rows and EWKB point decoding.

mod args;
mod geo;
mod http;
mod image_data;
mod laws;
mod response;
mod rows;
mod text;

pub use args::{Args, bind_address_spec, db_string_spec};
pub use geo::{
    EwkbError, LongLat, as_i32, coords_at, ewkb_point_spec, has_srid, le_u32, le_u64, point_json,
    point_json_spec,
};
pub use http::{
    MAX_PAYLOAD_SIZE, RequestError, after_last_colon, all_digits, check_head, content_length_spec,
    digits_value, head_well_formed, is_head_end, is_length_line, lemma_line_end_bound, length_value,
    line_end, lines_of, parse_request, parse_usize, parse_usize_spec, strip_cr,
};
pub use image_data::{
    CropMode, ImageDataError, Input, Output, TARGET_SIZE, base64_char, base64_text,
    crop_origin, crop_origin_spec, data_url_pattern, data_url_payload_at, is_word_char, word_run, decode_data_url, decode_payload,
    encode_jpeg_data_url, regex_replacement,
};
pub use laws::{
    law_base64_text_injective, law_ewkb_ignores_byte_order, law_ewkb_round_trip,
    ewkb_point_bytes, le_bytes_u32, le_bytes_u64, law_geography_columns, law_length_header_round_trip,
    law_replace_by_itself, law_length_from_last_length_line, law_no_length_line_no_body,
    law_rows_each_written, law_row_each_column_written, law_column_member, law_int_cell_reads_back,
    law_point_json_layout, law_crop_window_on_longer_side, law_data_url_prefix_found, law_trim_ignores_surrounding_space, all_space, law_response_head_round_trip, lemma_decimal_value, single_line,
};
pub use response::{
    Route, Step, byte_len, crate_response, crop_reply, handle_request, query_error_message, query_reply, quoted,
    quotes, reads_body_text, request_error_reply, response_spec, route, route_spec,
};
pub use rows::{
    CellValue, Column, ColumnKind, Fetched, cell_text, cell_value, cell_value_spec, fetched_fits,
    json_value_spec, column_kind, column_kind_spec, column_text, joined,
    render_cell, row_object, row_text, row_to_string, rows_text,
};
pub use text::{
    chars_of, decimal, digit_char, i32_text, int_text, interleaved, is_space, is_space_char,
    occurs_at, replace_all, replaced, same_text, starts_with, string_of_range, sub_chars, trim, trim_range,
    trim_end_spec, trim_start_spec, trimmed, usize_text,
};
