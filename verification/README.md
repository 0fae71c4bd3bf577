# image_converter

An image converter for web work: PNG, JPG/JPEG, WebP and AVIF output from
PNG, JPEG, WebP, AVIF, TIFF, BMP and ICO input, as a command-line tool with
an interactive mode and as an HTTP conversion service.

## Layout

- `src/` is the library, written and proved with Verus: output formats and
  their extensions, the path rules (file names, stems, extensions, the
  mirrored output tree of a directory conversion), the checks and defaults of
  the interactive mode, the command-line option rules, the summary of a
  directory conversion, the JPEG background blending, file size and quality
  labels, and the request, response and configuration rules of the service.
  Each public function states its result in its contract; the `lemma_*`
  proof functions state the properties that span several functions.
- `app/` is the program around it: argument parsing, prompts, file-system
  work, decoding and encoding through the `image`, `webp` and `ravif`
  crates, the parallel directory walk, and the `axum` service.
- `tests/` runs the library on concrete values.

## Running

```bash
image_converter                                   # interactive mode
image_converter -i in.png -o out.webp -f webp -q 85
image_converter -i photos -o photos_webp -f webp -r -t 4
image_converter serve                             # conversion service
```

The service reads its settings from the environment (`HOST`, `PORT`,
`CONVERT_MAX_UPLOAD_BYTES`, `CONVERT_MAX_PIXELS`, `CONVERT_MAX_CONCURRENCY`,
`CONVERT_QUEUE_TIMEOUT_SECONDS`, `CONVERT_TIMEOUT_SECONDS`,
`CONVERT_ALLOWED_ORIGIN`) and answers `POST /v1/convert` with the converted
file.
