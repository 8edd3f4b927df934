# nusamai (GeoJSON sink core)

The verified core of the GeoJSON sink of a CityGML conversion pipeline
(`[Source] ==> [Transformer] ==> [Sink]`), written in Verus.

- `src/geometry.rs`: compact multi-point, multi-line-string and multi-polygon
  containers that keep all points in one flat vector (no jagged arrays).
- `src/conversion.rs`: turns index geometries into nested GeoJSON coordinate
  lists by looking every index up in the shared vertex list.
- `src/sink.rs`: the features of a city object (one per non-empty geometry
  kind) and the byte framing of the `FeatureCollection` document.
- `src/pipeline.rs`: channel bounds and thread-pool sizing of the pipeline.
- `app/`: threads, channels, files, rayon, serde_json and `geojson` values
  around the library.
