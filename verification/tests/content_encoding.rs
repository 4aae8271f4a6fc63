use ccs_proxy::codec::DecodeErrorKind;
use ccs_proxy::content_encoding::{
    brotli_window_log, decompress_body, decompress_body_limited, decompress_body_with_limit,
    get_content_encoding, is_supported_content_encoding, split_codings, validate_brotli_window,
    DecompressError,
};
use ccs_proxy::headers::Headers;

fn gzip_member(payload: &[u8]) -> Vec<u8> {
    let mut encoder = flate2::write::GzEncoder::new(Vec::new(), flate2::Compression::default());
    std::io::Write::write_all(&mut encoder, payload).unwrap();
    encoder.finish().unwrap()
}

fn brotli_stream(payload: &[u8]) -> Vec<u8> {
    let mut encoder = brotli::CompressorWriter::new(Vec::new(), 4096, 5, 22);
    std::io::Write::write_all(&mut encoder, payload).unwrap();
    encoder.into_inner()
}

fn brotli_stream_with_window(payload: &[u8], window_log: u32) -> Vec<u8> {
    let mut encoder = brotli::CompressorWriter::new(Vec::new(), 4096, 5, window_log);
    std::io::Write::write_all(&mut encoder, payload).unwrap();
    encoder.into_inner()
}

fn zlib_stream(payload: &[u8]) -> Vec<u8> {
    let mut encoder =
        flate2::write::ZlibEncoder::new(Vec::new(), flate2::Compression::default());
    std::io::Write::write_all(&mut encoder, payload).unwrap();
    encoder.finish().unwrap()
}

fn raw_deflate_stream(payload: &[u8]) -> Vec<u8> {
    let mut encoder =
        flate2::write::DeflateEncoder::new(Vec::new(), flate2::Compression::default());
    std::io::Write::write_all(&mut encoder, payload).unwrap();
    encoder.finish().unwrap()
}

fn deterministic_payload(len: usize) -> Vec<u8> {
    let mut state = 0x7a5b_31d2_u32;
    (0..len)
        .map(|_| {
            state ^= state << 13;
            state ^= state >> 17;
            state ^= state << 5;
            state as u8
        })
        .collect()
}

fn brotli_stream_with_exact_len(target_len: usize) -> (Vec<u8>, Vec<u8>) {
    let source = deterministic_payload(target_len + 256);
    for payload_len in target_len.saturating_sub(128)..=target_len + 128 {
        let payload = source[..payload_len].to_vec();
        let compressed = brotli_stream(&payload);
        if compressed.len() == target_len {
            return (payload, compressed);
        }
    }
    panic!("failed to construct deterministic {target_len}-byte brotli stream");
}

#[test]
fn decompress_body_gzip_reads_all_members() {
    let mut compressed = gzip_member(b"first-");
    compressed.extend_from_slice(&gzip_member(b"second"));

    for coding in ["gzip", "x-gzip"] {
        let decompressed = decompress_body(coding, &compressed).unwrap().unwrap();
        assert_eq!(decompressed, b"first-second", "{coding}");
    }
}

#[test]
fn decompress_body_limited_gzip_reads_all_members() {
    let mut compressed = gzip_member(b"first-");
    compressed.extend_from_slice(&gzip_member(b"second"));

    for coding in ["gzip", "x-gzip"] {
        let decompressed = decompress_body_limited(coding, &compressed, 1024, false)
            .unwrap()
            .unwrap();
        assert_eq!(decompressed.bytes, b"first-second", "{coding}");
        assert!(!decompressed.truncated, "{coding}");
    }
}

#[test]
fn decompress_body_deflate_handles_zlib_wrapped_per_rfc9110() {
    // RFC 9110 规范的 deflate = zlib 包裹格式（合规来源发的就是这个）
    let payload = br#"{"ok":true}"#;
    let mut encoder =
        flate2::write::ZlibEncoder::new(Vec::new(), flate2::Compression::default());
    std::io::Write::write_all(&mut encoder, payload).unwrap();
    let compressed = encoder.finish().unwrap();

    let decompressed = decompress_body("deflate", &compressed).unwrap().unwrap();
    assert_eq!(decompressed, payload);
}

#[test]
fn decompress_body_deflate_falls_back_to_raw_stream() {
    // 部分来源违规发 raw deflate 流，保持兼容
    let payload = br#"{"ok":true}"#;
    let mut encoder =
        flate2::write::DeflateEncoder::new(Vec::new(), flate2::Compression::default());
    std::io::Write::write_all(&mut encoder, payload).unwrap();
    let compressed = encoder.finish().unwrap();

    let decompressed = decompress_body("deflate", &compressed).unwrap().unwrap();
    assert_eq!(decompressed, payload);
}

#[test]
fn decompress_body_limited_deflate_distinguishes_exact_limit_from_expansion() {
    const LIMIT: usize = 8 * 1024;
    let encoders: [(&str, fn(&[u8]) -> Vec<u8>); 2] =
        [("zlib", zlib_stream), ("raw", raw_deflate_stream)];

    for (format, encode) in encoders {
        for payload_len in [LIMIT, LIMIT + 1] {
            let payload = vec![b'x'; payload_len];
            let compressed = encode(&payload);
            assert!(
                compressed.len() < LIMIT,
                "{format} fixture must exercise the decoded-output cap"
            );

            let decoded = decompress_body_limited("deflate", &compressed, LIMIT, false)
                .unwrap()
                .unwrap();

            assert_eq!(decoded.bytes, payload[..LIMIT], "{format} {payload_len}");
            assert_eq!(
                decoded.truncated,
                payload_len > LIMIT,
                "{format} {payload_len}"
            );
        }
    }
}

#[test]
fn decompress_body_deflate_rejects_zlib_trailing_garbage() {
    let compressed = [zlib_stream(b"hello").as_slice(), b"trailing"].concat();

    let error = decompress_body("deflate", &compressed).unwrap_err();
    assert_eq!(error.kind, DecodeErrorKind::InvalidData);
}

#[test]
fn decompress_body_deflate_rejects_raw_trailing_garbage() {
    let compressed = [raw_deflate_stream(b"hello").as_slice(), b"trailing"].concat();

    let error = decompress_body("deflate", &compressed).unwrap_err();
    assert_eq!(error.kind, DecodeErrorKind::InvalidData);
}

#[test]
fn decompress_body_deflate_rejects_empty_body() {
    let error = decompress_body("deflate", b"").unwrap_err();
    assert_eq!(error.kind, DecodeErrorKind::InvalidData);
}

#[test]
fn decompress_body_limited_deflate_rejects_zlib_trailing_garbage() {
    let mut encoder =
        flate2::write::ZlibEncoder::new(Vec::new(), flate2::Compression::default());
    std::io::Write::write_all(&mut encoder, b"hello").unwrap();
    let compressed = [encoder.finish().unwrap().as_slice(), b"trailing"].concat();

    let error = decompress_body_limited("deflate", &compressed, 1024, false).unwrap_err();
    assert_eq!(error.kind, DecodeErrorKind::InvalidData);
}

#[test]
fn decompress_body_limited_deflate_rejects_raw_trailing_garbage() {
    let mut encoder =
        flate2::write::DeflateEncoder::new(Vec::new(), flate2::Compression::default());
    std::io::Write::write_all(&mut encoder, b"hello").unwrap();
    let compressed = [encoder.finish().unwrap().as_slice(), b"trailing"].concat();

    let error = decompress_body_limited("deflate", &compressed, 1024, false).unwrap_err();
    assert_eq!(error.kind, DecodeErrorKind::InvalidData);
}

#[test]
fn decompress_body_limited_deflate_rejects_truncated_zlib_adler() {
    let mut compressed = zlib_stream(&deterministic_payload(4096));
    compressed.pop();

    let error = decompress_body_limited("deflate", &compressed, 8192, false).unwrap_err();
    assert_eq!(error.kind, DecodeErrorKind::InvalidData);
}

#[test]
fn decompress_body_limited_deflate_rejects_truncated_zlib_payload() {
    let mut compressed = zlib_stream(&deterministic_payload(4096));
    compressed.truncate(compressed.len() / 2);

    let error = decompress_body_limited("deflate", &compressed, 8192, false).unwrap_err();
    assert_eq!(error.kind, DecodeErrorKind::InvalidData);
}

#[test]
fn decompress_body_limited_deflate_rejects_truncated_raw_stream() {
    let mut compressed = raw_deflate_stream(&deterministic_payload(4096));
    compressed.pop();

    let error = decompress_body_limited("deflate", &compressed, 8192, false).unwrap_err();
    assert_eq!(error.kind, DecodeErrorKind::InvalidData);
}

#[test]
fn decompress_body_limited_deflate_allows_truncated_input_after_output() {
    let payload = deterministic_payload(4096);
    let mut compressed = zlib_stream(&payload);
    compressed.truncate(compressed.len() - 4);

    let decoded = decompress_body_limited("deflate", &compressed, 8192, true)
        .unwrap()
        .unwrap();

    assert!(decoded.truncated);
    assert!(!decoded.bytes.is_empty());
    assert!(payload.starts_with(&decoded.bytes));
}

#[test]
fn decompress_body_limited_deflate_rejects_truncated_input_without_output() {
    let compressed = zlib_stream(b"hello");

    let error = decompress_body_limited("deflate", &compressed[..2], 1024, true).unwrap_err();
    assert_eq!(error.kind, DecodeErrorKind::InvalidData);
}

#[test]
fn decompress_body_limited_rejects_truncated_inner_raw_deflate() {
    let mut inner = raw_deflate_stream(&deterministic_payload(4096));
    inner.pop();
    let stacked = zstd::stream::encode_all(std::io::Cursor::new(inner), 0).unwrap();

    let error = decompress_body_limited("deflate, zstd", &stacked, 8192, false).unwrap_err();
    assert_eq!(error.kind, DecodeErrorKind::InvalidData);
}

#[test]
fn decompress_body_zstd_roundtrip() {
    // Codex 登录态发的就是 zstd 压缩请求体
    let payload = br#"{"hello":"world","n":42}"#;
    let compressed = zstd::stream::encode_all(std::io::Cursor::new(&payload[..]), 0).unwrap();
    let decompressed = decompress_body("zstd", &compressed).unwrap().unwrap();
    assert_eq!(decompressed, payload);
}

#[test]
fn brotli_window_preflight_rejects_over_budget_header() {
    validate_brotli_window(&[0x0b]).unwrap();

    let error = validate_brotli_window(&[0x11, 30]).unwrap_err();
    assert_eq!(error.kind, DecodeErrorKind::InvalidData);
}

#[test]
fn decompress_body_limited_brotli_rejects_valid_window_24_stream() {
    let payload = b"valid brotli window 24 stream";
    let compressed = brotli_stream_with_window(payload, 24);
    assert_eq!(brotli_window_log(&compressed).unwrap(), 24);

    let unrestricted = decompress_body("br", &compressed).unwrap().unwrap();
    assert_eq!(unrestricted, payload);

    let error = decompress_body_limited("br", &compressed, 1024, false).unwrap_err();
    assert_eq!(error.kind, DecodeErrorKind::InvalidData);
    assert!(
        error.message.contains("window log 24 exceeds limit 23"),
        "{error:?}"
    );
}

#[test]
fn decompress_body_limited_brotli_rejects_trailing_garbage() {
    let compressed = brotli_stream(b"hello");
    let decoded = decompress_body_limited("br", &compressed, 1024, false)
        .unwrap()
        .unwrap();
    assert_eq!(decoded.bytes, b"hello");
    assert!(!decoded.truncated);

    let with_trailing = [compressed.as_slice(), b"trailing garbage"].concat();
    let error = decompress_body_limited("br", &with_trailing, 1024, false).unwrap_err();
    assert_eq!(error.kind, DecodeErrorKind::InvalidData);
}

#[test]
fn decompress_body_brotli_rejects_trailing_garbage() {
    let compressed = [brotli_stream(b"hello").as_slice(), b"trailing garbage"].concat();

    let error = decompress_body("br", &compressed).unwrap_err();
    assert_eq!(error.kind, DecodeErrorKind::InvalidData);
}

#[test]
fn decompress_body_brotli_rejects_trailing_after_exact_input_buffers() {
    for compressed_len in [8 * 1024, 16 * 1024] {
        let (payload, compressed) = brotli_stream_with_exact_len(compressed_len);
        let limit = compressed_len * 2;

        let unrestricted = decompress_body("br", &compressed).unwrap().unwrap();
        assert_eq!(unrestricted, payload, "{compressed_len}");
        let limited = decompress_body_limited("br", &compressed, limit, false)
            .unwrap()
            .unwrap();
        assert_eq!(limited.bytes, payload, "{compressed_len}");
        assert!(!limited.truncated, "{compressed_len}");

        let with_trailing = [compressed.as_slice(), b"trailing"].concat();
        let unrestricted_error = decompress_body("br", &with_trailing).unwrap_err();
        assert_eq!(
            unrestricted_error.kind,
            DecodeErrorKind::InvalidData,
            "{compressed_len}"
        );
        let limited_error =
            decompress_body_limited("br", &with_trailing, limit, false).unwrap_err();
        assert_eq!(
            limited_error.kind,
            DecodeErrorKind::InvalidData,
            "{compressed_len}"
        );
    }
}

#[test]
fn decompress_body_limited_zstd_rejects_over_budget_window() {
    let over_budget_empty_frame = [
        0x28, 0xb5, 0x2f, 0xfd, // magic
        0x00, // frame header descriptor: non-single-segment, no content size
        0x70, // window descriptor: 1 << 24
        0x01, 0x00, 0x00, // empty last raw block
    ];

    let unrestricted = decompress_body("zstd", &over_budget_empty_frame)
        .unwrap()
        .unwrap();
    assert!(unrestricted.is_empty());

    let error =
        decompress_body_limited("zstd", &over_budget_empty_frame, 1024, false).unwrap_err();
    let message = error.message.to_ascii_lowercase();
    assert!(
        message.contains("window") || message.contains("memory"),
        "{error:?}"
    );
}

#[test]
fn decompress_body_limited_zstd_rejects_trailing_garbage() {
    let compressed = zstd::stream::encode_all(std::io::Cursor::new(b"hello"), 0).unwrap();
    let with_trailing = [compressed.as_slice(), b"trailing"].concat();

    decompress_body_limited("zstd", &with_trailing, 1024, false).unwrap_err();
}

#[test]
fn decompress_body_stacked_gzip_then_zstd_decodes_in_reverse() {
    // Content-Encoding: gzip, zstd 表示先 gzip 后 zstd，解压须反向（先 zstd 后 gzip）
    let payload = br#"{"stacked":true}"#;
    let mut gz = flate2::write::GzEncoder::new(Vec::new(), flate2::Compression::default());
    std::io::Write::write_all(&mut gz, payload).unwrap();
    let gzipped = gz.finish().unwrap();
    let stacked = zstd::stream::encode_all(std::io::Cursor::new(&gzipped[..]), 0).unwrap();

    let decompressed = decompress_body("gzip, zstd", &stacked).unwrap().unwrap();
    assert_eq!(decompressed, payload);
}

#[test]
fn decompress_body_stacked_with_unsupported_returns_none() {
    // 堆叠里只要有一个不支持，就整体保头透传
    let result = decompress_body("snappy, zstd", b"\x00\x01\x02\x03").unwrap();
    assert!(result.is_none());
}

#[test]
fn decompress_body_limited_caps_gzip_expansion() {
    let payload = vec![b'x'; 64 * 1024];
    let mut encoder = flate2::write::GzEncoder::new(Vec::new(), flate2::Compression::default());
    std::io::Write::write_all(&mut encoder, &payload).unwrap();
    let compressed = encoder.finish().unwrap();

    let decompressed = decompress_body_limited("gzip", &compressed, 1024, false)
        .unwrap()
        .unwrap();
    assert_eq!(decompressed.bytes.len(), 1024);
    assert!(decompressed.truncated);
}

#[test]
fn decompress_body_limited_caps_brotli_expansion() {
    let payload = vec![b'x'; 64 * 1024];
    let compressed = brotli_stream(&payload);

    let decompressed = decompress_body_limited("br", &compressed, 1024, false)
        .unwrap()
        .unwrap();

    assert_eq!(decompressed.bytes.len(), 1024);
    assert!(decompressed.truncated);
    assert!(payload.starts_with(&decompressed.bytes));
}

#[test]
fn decompress_body_limited_caps_zstd_expansion() {
    let payload = vec![b'x'; 64 * 1024];
    let compressed = zstd::stream::encode_all(std::io::Cursor::new(&payload), 0).unwrap();

    let decompressed = decompress_body_limited("zstd", &compressed, 1024, false)
        .unwrap()
        .unwrap();

    assert_eq!(decompressed.bytes.len(), 1024);
    assert!(decompressed.truncated);
    assert!(payload.starts_with(&decompressed.bytes));
}

#[test]
fn decompress_body_limited_preserves_small_payload() {
    let payload = br#"{"ok":true}"#;
    let mut encoder = flate2::write::GzEncoder::new(Vec::new(), flate2::Compression::default());
    std::io::Write::write_all(&mut encoder, payload).unwrap();
    let compressed = encoder.finish().unwrap();

    let decompressed = decompress_body_limited("gzip", &compressed, 1024, false)
        .unwrap()
        .unwrap();
    assert_eq!(decompressed.bytes, payload);
    assert!(!decompressed.truncated);
}

#[test]
fn decompress_body_limited_stacked_small_payload_roundtrip() {
    let payload = br#"{"stacked":true}"#;
    let mut gzip = flate2::write::GzEncoder::new(Vec::new(), flate2::Compression::default());
    std::io::Write::write_all(&mut gzip, payload).unwrap();
    let gzipped = gzip.finish().unwrap();
    let stacked = zstd::stream::encode_all(std::io::Cursor::new(gzipped), 0).unwrap();

    let decompressed = decompress_body_limited("gzip, zstd", &stacked, 1024, false)
        .unwrap()
        .unwrap();

    assert_eq!(decompressed.bytes, payload);
    assert!(!decompressed.truncated);
}

#[test]
fn decompress_body_limited_stacked_truncation_preserves_decoded_prefix() {
    let payload = vec![b'x'; 4096];
    let mut gzip = flate2::write::GzEncoder::new(Vec::new(), flate2::Compression::none());
    std::io::Write::write_all(&mut gzip, &payload).unwrap();
    let gzipped = gzip.finish().unwrap();
    let stacked = zstd::stream::encode_all(std::io::Cursor::new(gzipped), 0).unwrap();
    let limit = 128;
    assert!(stacked.len() <= limit);

    let decompressed = decompress_body_limited("gzip, zstd", &stacked, limit, false)
        .unwrap()
        .unwrap();

    assert!(decompressed.truncated);
    assert!(!decompressed.bytes.is_empty());
    assert!(decompressed.bytes.len() <= limit);
    assert!(payload.starts_with(&decompressed.bytes));
}

#[test]
fn decompress_body_limited_truncated_wire_preserves_decoded_prefix() {
    let payload = vec![b'x'; 4096];
    let mut gzip = flate2::write::GzEncoder::new(Vec::new(), flate2::Compression::none());
    std::io::Write::write_all(&mut gzip, &payload).unwrap();
    let compressed = gzip.finish().unwrap();
    let limit = 128;
    assert!(compressed.len() > limit);

    let decompressed = decompress_body_limited("gzip", &compressed[..limit], limit, true)
        .unwrap()
        .unwrap();

    assert!(decompressed.truncated);
    assert!(!decompressed.bytes.is_empty());
    assert!(decompressed.bytes.len() <= limit);
    assert!(payload.starts_with(&decompressed.bytes));
}

#[test]
fn decompress_body_unknown_encoding_returns_none_to_keep_headers() {
    // 未知编码必须返回 None（而非伪装成"已解码"），否则 content-encoding
    // 头被剥掉，下游诊断会把压缩字节误报成明文
    let result = decompress_body("snappy", b"\x00\x01\x02\x03").unwrap();
    assert!(result.is_none());
}

/// 生成确定性伪随机字节（LCG），避免测试引入 rand 依赖。
fn pseudo_random_bytes(len: usize) -> Vec<u8> {
    let mut state: u64 = 0x243F_6A88_85A3_08D3;
    (0..len)
        .map(|_| {
            state = state
                .wrapping_mul(6364136223846793005)
                .wrapping_add(1442695040888963407);
            (state >> 33) as u8
        })
        .collect()
}

fn gzip_compress(payload: &[u8]) -> Vec<u8> {
    let mut encoder = flate2::write::GzEncoder::new(Vec::new(), flate2::Compression::default());
    std::io::Write::write_all(&mut encoder, payload).unwrap();
    encoder.finish().unwrap()
}

#[test]
fn decompress_body_with_limit_passes_payload_under_limit() {
    let payload = br#"{"ok":true}"#;
    let compressed = gzip_compress(payload);

    let out = decompress_body_with_limit("gzip", &compressed, 1024)
        .unwrap()
        .unwrap();
    assert_eq!(out, payload);
}

#[test]
fn decompress_body_with_limit_allows_exactly_limit_bytes() {
    let payload = vec![7u8; 64 * 1024];
    let compressed = gzip_compress(&payload);

    let out = decompress_body_with_limit("gzip", &compressed, 64 * 1024)
        .unwrap()
        .unwrap();
    assert_eq!(out.len(), 64 * 1024);
    assert_eq!(out, payload);
}

#[test]
fn decompress_body_with_limit_aborts_gzip_bomb_mid_stream() {
    // 4 MiB 伪随机数据（压缩率约 1:1）gzip 后截断到 2 MiB：流在产出约 2 MiB
    // 解压数据后 abrupt 结束。有界读取应在 1 MiB 预算耗尽处报 TooLarge；
    // 无界读取会一路读到残缺的流尾报 UnexpectedEof（Io）——两者可区分，
    // 因此该测试能识别"先完整展开再比较"的退化。
    let payload = pseudo_random_bytes(4 * 1024 * 1024);
    let compressed = gzip_compress(&payload);
    assert!(compressed.len() > 2 * 1024 * 1024);
    let truncated = &compressed[..2 * 1024 * 1024];

    let result = decompress_body_with_limit("gzip", truncated, 1024 * 1024);
    assert!(
        matches!(result, Err(DecompressError::TooLarge { .. })),
        "应在预算耗尽处截停（TooLarge），而不是读到流尾才报错: {:?}",
        result.as_ref().map(|o| o.as_ref().map(Vec::len))
    );
}

#[test]
fn decompress_body_with_limit_rejects_zstd_bomb() {
    // 高压缩比 payload：8 MiB 全零 → zstd 压缩后仅数 KiB，完整展开必然超限
    let payload = vec![0u8; 8 * 1024 * 1024];
    let compressed = zstd::stream::encode_all(std::io::Cursor::new(&payload[..]), 0).unwrap();
    assert!(compressed.len() < 1024 * 1024);

    let result = decompress_body_with_limit("zstd", &compressed, 1024 * 1024);
    assert!(
        matches!(result, Err(DecompressError::TooLarge { .. })),
        "zstd 压缩炸弹应在预算耗尽处截停: {:?}",
        result.as_ref().map(|o| o.as_ref().map(Vec::len))
    );
}

#[test]
fn decompress_body_with_limit_rejects_brotli_bomb() {
    let payload = vec![0u8; 8 * 1024 * 1024];
    let mut compressed = Vec::new();
    {
        let mut writer = brotli::CompressorWriter::new(&mut compressed, 4096, 5, 22);
        std::io::Write::write_all(&mut writer, &payload).unwrap();
    }
    assert!(compressed.len() < 1024 * 1024);

    let result = decompress_body_with_limit("br", &compressed, 1024 * 1024);
    assert!(
        matches!(result, Err(DecompressError::TooLarge { .. })),
        "brotli 压缩炸弹应在预算耗尽处截停: {:?}",
        result.as_ref().map(|o| o.as_ref().map(Vec::len))
    );
}

#[test]
fn decompress_body_with_limit_bounds_intermediate_stage_of_stacked_encodings() {
    // 堆叠编码 gzip, zstd：zstd 先解出 gzip 流（小），gzip 再展开成 8 MiB。
    // 中间产物同样受预算约束，不能只在最后一级设防。
    let payload = vec![0u8; 8 * 1024 * 1024];
    let gzipped = gzip_compress(&payload);
    let stacked = zstd::stream::encode_all(std::io::Cursor::new(&gzipped[..]), 0).unwrap();

    let result = decompress_body_with_limit("gzip, zstd", &stacked, 1024 * 1024);
    assert!(
        matches!(result, Err(DecompressError::TooLarge { .. })),
        "堆叠编码的中间解压产物也应受预算约束: {:?}",
        result.as_ref().map(|o| o.as_ref().map(Vec::len))
    );
}

#[test]
fn is_supported_content_encoding_matches_decompressable() {
    for enc in [
        "gzip",
        "x-gzip",
        "deflate",
        "br",
        "zstd",
        "zst",
        "gzip, zstd",
    ] {
        assert!(is_supported_content_encoding(enc), "{enc} 应受支持");
    }
    for enc in ["identity", "snappy", "compress", "", "gzip, snappy"] {
        assert!(!is_supported_content_encoding(enc), "{enc} 不应受支持");
    }
}

#[test]
fn get_content_encoding_combines_repeated_headers() {
    // 重复的 content-encoding 头等同逗号拼接，须用 get_all 合并
    let mut headers = Headers::new();
    headers.append("content-encoding", b"gzip");
    headers.append("content-encoding", b"zstd");
    assert_eq!(
        get_content_encoding(&headers).as_deref(),
        Some("gzip, zstd")
    );
}

#[test]
fn get_content_encoding_ignores_identity_only() {
    let mut headers = Headers::new();
    headers.append("content-encoding", b"identity");
    assert_eq!(get_content_encoding(&headers), None);
}

#[test]
fn codings_are_listed_without_identity_and_blanks() {
    assert_eq!(split_codings(" gzip ,, identity, br"), vec!["gzip", "br"]);
    assert!(split_codings("identity").is_empty());
}

#[test]
fn whole_bodies_report_the_limit_they_exceed() {
    let compressed = gzip_compress(&[0u8; 2048]);
    let error = decompress_body_with_limit("gzip", &compressed, 1000).unwrap_err();
    assert_eq!(error, DecompressError::TooLarge { limit: 1000 });
    assert_eq!(error.message(), "解压输出超过上限 1000 字节");
    let plain = error.into_decode_error();
    assert_eq!(plain.kind, DecodeErrorKind::Other);
    assert_eq!(plain.message, "decompressed body exceeds 1000 bytes");
}

#[test]
fn damaged_gzip_is_an_error_and_not_a_limit() {
    let mut compressed = gzip_compress(b"payload");
    compressed.truncate(compressed.len() - 6);
    assert!(matches!(
        decompress_body_with_limit("gzip", &compressed, 1000),
        Err(DecompressError::Io(_))
    ));
    assert!(decompress_body("gzip", &compressed).is_err());
}

#[test]
fn each_coding_changes_the_bytes_it_is_given() {
    let payload = b"payload ".repeat(512);
    let payload = payload.as_slice();
    let encoded = [
        ("gzip", gzip_compress(payload)),
        ("deflate", zlib_stream(payload)),
        ("br", brotli_stream(payload)),
        ("zstd", zstd::stream::encode_all(payload, 0).unwrap()),
    ];
    for (coding, bytes) in encoded {
        assert_ne!(bytes.as_slice(), payload, "{coding}");
        let whole = decompress_body(coding, &bytes).unwrap().unwrap();
        assert_eq!(whole, payload, "{coding}");
        let limited = decompress_body_limited(coding, &bytes, 1024, false).unwrap().unwrap();
        assert_eq!(limited.bytes, payload[..1024], "{coding}");
        assert!(limited.truncated, "{coding}");
    }
}

#[test]
fn limited_decoding_is_the_beginning_of_the_whole() {
    let payload: Vec<u8> = deterministic_payload(9_000)
        .into_iter()
        .map(|byte| b'a' + byte % 7)
        .collect();
    let zstd = |bytes: &[u8]| zstd::stream::encode_all(bytes, 3).unwrap();
    for (encoding, body) in [
        ("gzip", gzip_member(&payload)),
        ("deflate", zlib_stream(&payload)),
        ("deflate", raw_deflate_stream(&payload)),
        ("br", brotli_stream(&payload)),
        ("zstd", zstd(&payload)),
        ("deflate, gzip", gzip_member(&zlib_stream(&payload))),
        ("gzip, br", brotli_stream(&gzip_member(&payload))),
        ("br, zstd", zstd(&brotli_stream(&payload))),
    ] {
        let whole = decompress_body(encoding, &body).unwrap().unwrap();
        assert_eq!(whole, payload, "{encoding}");
        let all = decompress_body_limited(encoding, &body, 20_000, false).unwrap().unwrap();
        assert!(!all.truncated, "{encoding}");
        assert_eq!(all.bytes, whole, "{encoding}");
        let same = decompress_body_with_limit(encoding, &body, 20_000).unwrap().unwrap();
        assert_eq!(same, whole, "{encoding}");
        for cut in [body.len() / 2, body.len() - 1] {
            if let Ok(Some(part)) = decompress_body_limited(encoding, &body[..cut], 20_000, true) {
                assert!(part.truncated, "{encoding}");
                assert!(whole.starts_with(&part.bytes), "{encoding}");
            }
        }
        for limit in [1, 700, 5_000, 8_999] {
            if let Ok(Some(part)) = decompress_body_limited(encoding, &body, limit, false) {
                assert!(part.truncated && part.bytes.len() <= limit, "{encoding}");
                assert!(whole.starts_with(&part.bytes), "{encoding}");
            }
        }
    }
    let part = decompress_body_limited("gzip", &gzip_member(&payload), 8_999, false);
    assert_eq!(part.unwrap().unwrap().bytes, &payload[..8_999]);
}
